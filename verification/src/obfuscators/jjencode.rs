//! jjencode: code whose identifiers are made of `$` and `_`.

use vstd::prelude::*;

use crate::deobfuscator::{ObfuscatedCounters, ObfuscatedIdentifier};

verus! {

/// The regular symbols of JJEncode: `$` and `_`.
pub open spec fn spec_is_jj_regular_symbol(c: char) -> bool {
    c == '$' || c == '_'
}

pub fn is_jj_regular_symbol(c: char) -> (r: bool)
    ensures
        r == spec_is_jj_regular_symbol(c),
{
    c == '$' || c == '_'
}

/// A name made only of `$` and `_` (the empty name included).
pub open spec fn is_jj_name(name: Seq<char>) -> bool {
    forall|i: int| 0 <= i < name.len() ==> spec_is_jj_regular_symbol(#[trigger] name[i])
}

/// How many of the identifiers have a jjencode name.
pub open spec fn jj_count(ids: Seq<ObfuscatedIdentifier>) -> nat
    decreases ids.len(),
{
    if ids.len() == 0 {
        0
    } else {
        jj_count(ids.drop_last()) + if is_jj_name(ids.last().name@) {
            1nat
        } else {
            0nat
        }
    }
}

/// No declarator or function declaration, no more assignments than
/// properties, and more than 80% of the identifiers with a jjencode name.
pub open spec fn spec_is_jjencode(ids: Seq<ObfuscatedIdentifier>, counters: ObfuscatedCounters) -> bool {
    &&& counters.variable_declarator == 0
    &&& counters.function_declaration == 0
    &&& counters.assignment_expression <= counters.property
    &&& ids.len() > 0
    &&& jj_count(ids) * 100 > 80 * ids.len()
}

fn name_is_jj(name: &str) -> (r: bool)
    ensures
        r == is_jj_name(name@),
{
    for c in it: name.chars()
        invariant
            it.seq() == name@,
            forall|j: int| 0 <= j < it.index() ==> spec_is_jj_regular_symbol(#[trigger] name@[j]),
    {
        if !is_jj_regular_symbol(c) {
            assert(name@[it.index() as int] == c);
            return false;
        }
    }
    true
}

pub fn verify(identifiers: &Vec<ObfuscatedIdentifier>, counters: &ObfuscatedCounters) -> (r: bool)
    ensures
        r == spec_is_jjencode(identifiers@, *counters),
{
    if counters.variable_declarator > 0 || counters.function_declaration > 0 {
        return false;
    }
    if counters.assignment_expression > counters.property {
        return false;
    }
    let mut match_count: usize = 0;
    let mut i: usize = 0;
    while i < identifiers.len()
        invariant
            0 <= i <= identifiers@.len(),
            match_count == jj_count(identifiers@.take(i as int)),
            match_count <= i,
        decreases identifiers.len() - i,
    {
        assert(identifiers@.take(i + 1).drop_last() =~= identifiers@.take(i as int));
        if name_is_jj(identifiers[i].name.as_str()) {
            match_count = match_count + 1;
        }
        i = i + 1;
    }
    assert(identifiers@.take(identifiers@.len() as int) =~= identifiers@);
    // 0 identifiers make the ratio NaN, which is not above 80.
    if identifiers.len() == 0 {
        return false;
    }
    (match_count as u128) * 100 > 80 * (identifiers.len() as u128)
}

} // verus!
