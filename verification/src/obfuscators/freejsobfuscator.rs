//! freejsobfuscator: every identifier is a shared prefix followed by one or
//! two letters and at most two digits.

use vstd::prelude::*;

use std::collections::BTreeMap;

use crate::deobfuscator::ObfuscatedIdentifier;
use crate::patterns::{regex_escape, regex_matches, regex_valid, spec_escape, Pattern};

verus! {

/// Lexicographic order of texts by code point: `a` comes before `b`.
pub open spec fn seq_lt(a: Seq<char>, b: Seq<char>) -> bool
    decreases a.len(),
{
    if a.len() == 0 {
        b.len() > 0
    } else if b.len() == 0 {
        false
    } else if a[0] != b[0] {
        a[0] < b[0]
    } else {
        seq_lt(a.drop_first(), b.drop_first())
    }
}

/// Of two different texts, one comes before the other.
pub proof fn lemma_seq_lt_total(a: Seq<char>, b: Seq<char>)
    requires
        a != b,
    ensures
        seq_lt(a, b) || seq_lt(b, a),
    decreases a.len(),
{
    if a.len() > 0 && b.len() > 0 && a[0] == b[0] {
        if a.drop_first() == b.drop_first() {
            assert(a =~= seq![a[0]] + a.drop_first());
            assert(b =~= seq![b[0]] + b.drop_first());
        }
        lemma_seq_lt_total(a.drop_first(), b.drop_first());
    } else if a.len() == 0 && b.len() == 0 {
        assert(a =~= b);
    }
}

/// The keys of a map, as texts.
pub open spec fn key_views(m: BTreeMap<String, usize>) -> Set<Seq<char>> {
    m@.dom().map(|k: String| k@)
}

/// A greatest element of a set of texts.
pub open spec fn is_greatest(keys: Set<Seq<char>>, k: Seq<char>) -> bool {
    keys.contains(k) && forall|k2: Seq<char>| #[trigger] keys.contains(k2) ==> !seq_lt(k, k2)
}

/// The greatest key of a non-empty set of texts.
pub open spec fn greatest(keys: Set<Seq<char>>) -> Seq<char> {
    choose|k: Seq<char>| is_greatest(keys, k)
}

/// A set has one greatest element at most.
pub proof fn lemma_greatest_unique(keys: Set<Seq<char>>, k: Seq<char>)
    requires
        is_greatest(keys, k),
    ensures
        greatest(keys) == k,
{
    let g = greatest(keys);
    assert(is_greatest(keys, g));
    if g != k {
        lemma_seq_lt_total(g, k);
    }
}

/// The pattern the identifiers must match: the prefix, one or two ASCII
/// letters, at most two digits.
pub open spec fn prefix_pattern(prefix: Seq<char>) -> Seq<char> {
    "^"@ + spec_escape(prefix) + "[a-zA-Z]{1,2}[0-9]{0,2}$"@
}

/// Every identifier matches the pattern of the greatest prefix; never for
/// no prefix or a pattern that does not compile.
pub open spec fn spec_is_freejsobfuscator(
    identifiers: Seq<ObfuscatedIdentifier>,
    prefix: BTreeMap<String, usize>,
) -> bool {
    let keys = key_views(prefix);
    &&& keys != Set::<Seq<char>>::empty()
    &&& regex_valid(prefix_pattern(greatest(keys)))
    &&& forall|i: int|
        0 <= i < identifiers.len() ==> regex_matches(
            prefix_pattern(greatest(keys)),
            #[trigger] identifiers[i].name@,
        )
}

/// `BTreeMap::last_key_value`: the greatest key (strings are ordered by
/// their UTF-8 bytes, which orders them by code point), `None` for an empty
/// map.
#[verifier::external_body]
fn greatest_key(m: &BTreeMap<String, usize>) -> (r: Option<String>)
    ensures
        r is None <==> key_views(*m) == Set::<Seq<char>>::empty(),
        r matches Some(k) ==> is_greatest(key_views(*m), k@),
{
    m.last_key_value().map(|(k, _)| k.clone())
}

pub fn verify(identifiers: &[ObfuscatedIdentifier], prefix: &BTreeMap<String, usize>) -> (r: bool)
    ensures
        r == spec_is_freejsobfuscator(identifiers@, *prefix),
{
    let p_value = match greatest_key(prefix) {
        Some(k) => k,
        None => return false,
    };
    proof {
        lemma_greatest_unique(key_views(*prefix), p_value@);
    }
    let mut pattern = String::new();
    pattern.append("^");
    let escaped = regex_escape(p_value.as_str());
    pattern.append(escaped.as_str());
    pattern.append("[a-zA-Z]{1,2}[0-9]{0,2}$");
    assert(pattern@ =~= prefix_pattern(p_value@));
    let regex = match Pattern::new(pattern.as_str()) {
        Ok(p) => p,
        Err(_) => return false,
    };
    let mut i: usize = 0;
    while i < identifiers.len()
        invariant
            0 <= i <= identifiers@.len(),
            regex.source() == prefix_pattern(p_value@),
            greatest(key_views(*prefix)) == p_value@,
            forall|j: int| 0 <= j < i ==> regex_matches(regex.source(), #[trigger] identifiers@[j].name@),
        decreases identifiers.len() - i,
    {
        if !regex.is_match(identifiers[i].name.as_str()) {
            assert(!regex_matches(
                prefix_pattern(greatest(key_views(*prefix))),
                identifiers@[i as int].name@,
            ));
            return false;
        }
        i = i + 1;
    }
    true
}

} // verus!
