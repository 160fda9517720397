//! JSFuck: code made only of `[]()!+`, with many `!!`-style unary chains.

use vstd::prelude::*;

use crate::deobfuscator::ObfuscatedCounters;

verus! {

pub const K_JSFUCK_MINIMUM_DOUBLE_UNARY_EXPR: u32 = 5;

/// No assignment, function, property or declarator, and at least five
/// double unary expressions.
pub open spec fn spec_is_jsfuck(counters: ObfuscatedCounters) -> bool {
    &&& counters.assignment_expression == 0
    &&& counters.function_declaration == 0
    &&& counters.property == 0
    &&& counters.variable_declarator == 0
    &&& counters.double_unary_expression >= K_JSFUCK_MINIMUM_DOUBLE_UNARY_EXPR
}

pub fn verify(counters: &ObfuscatedCounters) -> (r: bool)
    ensures
        r == spec_is_jsfuck(*counters),
{
    let has_zero_assign = counters.assignment_expression == 0 && counters.function_declaration
        == 0 && counters.property == 0 && counters.variable_declarator == 0;
    has_zero_assign && counters.double_unary_expression >= K_JSFUCK_MINIMUM_DOUBLE_UNARY_EXPR
}

} // verus!
