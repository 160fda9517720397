use std::collections::BTreeMap;

use indexmap::IndexMap;
use js_x_ray::deobfuscator::{Deobfuscator, ObfuscatedCounters, ObfuscatedIdentifier};
use js_x_ray::json::JsonValue;
use js_x_ray::obfuscators::{freejsobfuscator, jjencode, jsfuck, obfuscator_io, trojan_source};

fn counters(double_unary: u32) -> ObfuscatedCounters {
    ObfuscatedCounters {
        variable_declarator: 0,
        function_declaration: 0,
        assignment_expression: 0,
        property: 0,
        double_unary_expression: double_unary,
        member_expression: IndexMap::new(),
    }
}

fn ids(names: &[&str]) -> Vec<ObfuscatedIdentifier> {
    names
        .iter()
        .map(|n| ObfuscatedIdentifier { name: n.to_string(), node_type: "VariableDeclarator".to_string() })
        .collect()
}

#[test]
fn trojan_source_characters() {
    assert!(trojan_source::verify("a\u{202E}b"));
    assert!(trojan_source::verify("\u{200B}"));
    assert!(!trojan_source::verify("plain text"));
    assert!(js_x_ray::obfuscators::verify("x\u{2066}"));
    assert!(!js_x_ray::obfuscators::verify("x\u{00A0}"));
}

#[test]
fn jsfuck_needs_five_double_unary() {
    assert!(jsfuck::verify(&counters(5)));
    assert!(!jsfuck::verify(&counters(4)));
    let mut with_property = counters(9);
    with_property.property = 1;
    assert!(!jsfuck::verify(&with_property));
}

#[test]
fn jjencode_needs_most_names_of_dollars_and_underscores() {
    assert!(jjencode::verify(&ids(&["$", "__", "$_$", "_", "$$"]), &counters(0)));
    assert!(!jjencode::verify(&ids(&["$", "__", "a", "b"]), &counters(0)));
    assert!(!jjencode::verify(&ids(&[]), &counters(0)));
}

#[test]
fn freejsobfuscator_names_share_the_prefix() {
    let mut prefix = BTreeMap::new();
    prefix.insert("_0x".to_string(), 3usize);
    assert!(freejsobfuscator::verify(&ids(&["_0xab12", "_0xc", "_0xZ9"]), &prefix));
    assert!(!freejsobfuscator::verify(&ids(&["_0xab12", "_0xabc"]), &prefix));
    assert!(!freejsobfuscator::verify(&ids(&["_0xa"]), &BTreeMap::new()));
    let mut two = BTreeMap::new();
    two.insert("a".to_string(), 1usize);
    two.insert("b.".to_string(), 1usize);
    assert!(freejsobfuscator::verify(&ids(&["b.x1"]), &two));
    assert!(!freejsobfuscator::verify(&ids(&["bxx1"]), &two));
}

#[test]
fn obfuscator_io_needs_prefixed_identifiers_and_a_pattern() {
    let mut deob = Deobfuscator::new();
    deob.has_prefixed_identifiers = true;
    assert!(obfuscator_io::verify(&deob, &counters(2)));
    assert!(!obfuscator_io::verify(&deob, &counters(0)));
    let mut with_plain_members = counters(2);
    with_plain_members.member_expression.insert("false".to_string(), 1);
    assert!(!obfuscator_io::verify(&deob, &with_plain_members));
    let mut computed_only = counters(2);
    computed_only.member_expression.insert("true".to_string(), 4);
    assert!(obfuscator_io::verify(&deob, &computed_only));
    deob.has_prefixed_identifiers = false;
    assert!(!obfuscator_io::verify(&deob, &counters(2)));
}

#[test]
fn deobfuscator_starts_empty_and_recognises_nothing_yet() {
    let mut deob = Deobfuscator::default();
    assert!(deob.identifiers.is_empty());
    assert!(deob.morse_literals.is_empty());
    deob.analyze_string("hello");
    deob.walk(&JsonValue::Null);
    assert_eq!(deob.encoded_array_value, 0);
    assert!(matches!(deob.aggregate_counters(), JsonValue::Null));
    assert_eq!(deob.assert_obfuscation(), None);
}
