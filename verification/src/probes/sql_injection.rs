//! The `sql-injection` probe.

use vstd::prelude::*;

use crate::estree::functions::{spec_to_literal, to_literal};
use crate::estree::types::{identifier_name, node_type, spec_identifier_name, spec_node_type, LiteralIdentifiers};
use crate::json::JsonValue;
use crate::patterns::{pattern_matches, regex_matches, regex_valid};
use crate::probe::{opt_view, ProbeInfo};
use crate::probes::strings;
use crate::text::{str_eq, to_string, view_strings};

verus! {

/// The `sql-injection` probe.
pub struct SqlInjection;

impl SqlInjection {
    pub fn name(&self) -> (r: String)
        ensures
            r@ == "sql-injection"@,
    {
        to_string("sql-injection")
    }

    /// The ESTree node types the probe handles.
    pub fn node_types(&self) -> (r: Option<Vec<String>>)
        ensures
            match r {
                Some(v) => Some(view_strings(v@)),
                None => None::<Seq<Seq<char>>>,
            } == Some(seq!["CallExpression"@]),
    {
        Some(strings(&["CallExpression"]))
    }

    pub fn break_on_match(&self) -> (r: bool)
        ensures
            r == false,
    {
        false
    }

    pub fn break_group(&self) -> (r: Option<String>)
        ensures
            opt_view(r) == None::<Seq<char>>,
    {
        None
    }

    /// What the runner needs to know of the probe.
    pub fn info(&self) -> (r: ProbeInfo)
        ensures
            r.name@ == "sql-injection"@,
            match r.node_types {
                Some(v) => Some(view_strings(v@)),
                None => None::<Seq<Seq<char>>>,
            } == Some(seq!["CallExpression"@]),
            r.break_on_match == false,
            opt_view(r.break_group) == None::<Seq<char>>,
    {
        ProbeInfo {
            name: self.name(),
            node_types: self.node_types(),
            break_on_match: self.break_on_match(),
            break_group: self.break_group(),
        }
    }
}

} // verus!

verus! {

/// The pattern of an SQL statement built into a string.
pub open spec fn sql_pattern() -> Seq<char> {
    "(?i)(select\\s+.*\\s+from|insert\\s+into|delete\\s+from|update\\s+.*\\s+set)"@
}

/// Whether a text looks like an SQL statement.
pub open spec fn looks_like_sql(text: Seq<char>) -> bool {
    regex_valid(sql_pattern()) && regex_matches(sql_pattern(), text)
}

/// The SQL text that one argument of a call carries, if it looks like a
/// statement: an identifier bound to a template literal (through
/// `literals`), or a template literal with expressions.
pub open spec fn spec_sql_argument(arg: JsonValue, literals: LiteralIdentifiers) -> Option<Seq<char>> {
    if spec_node_type(arg) == Some("Identifier"@) {
        match spec_identifier_name(arg) {
            Some(name) => match literals.spec_get(name) {
                Some((ty, value)) => if ty == "TemplateLiteral"@ && looks_like_sql(value) {
                    Some(value)
                } else {
                    None
                },
                None => None,
            },
            None => None,
        }
    } else if spec_node_type(arg) == Some("TemplateLiteral"@) {
        let has_expressions = match arg.spec_get_array("expressions"@) {
            Some(e) => e.len() > 0,
            None => false,
        };
        if has_expressions && looks_like_sql(spec_to_literal(arg)) {
            Some(spec_to_literal(arg))
        } else {
            None
        }
    } else {
        None
    }
}

/// The SQL text of the first argument that carries one.
pub open spec fn spec_sql_arguments(args: Seq<JsonValue>, literals: LiteralIdentifiers) -> Option<
    Seq<char>,
>
    decreases args.len(),
{
    if args.len() == 0 {
        None
    } else {
        match spec_sql_argument(args[0], literals) {
            Some(v) => Some(v),
            None => spec_sql_arguments(args.drop_first(), literals),
        }
    }
}

/// The validator: the SQL text built into an argument of a call, if any.
pub open spec fn spec_sql_injection(node: JsonValue, literals: LiteralIdentifiers) -> Option<Seq<char>> {
    if spec_node_type(node) != Some("CallExpression"@) {
        None
    } else {
        match node.spec_get_array("arguments"@) {
            Some(args) => spec_sql_arguments(args, literals),
            None => None,
        }
    }
}

/// A text looks like SQL exactly when the case-insensitive regex
/// `(select\s+.*\s+from|insert\s+into|delete\s+from|update\s+.*\s+set)`
/// is valid and matches somewhere in it.
pub proof fn lemma_sql_pattern(text: Seq<char>)
    ensures
        looks_like_sql(text) == (regex_valid("(?i)(select\\s+.*\\s+from|insert\\s+into|delete\\s+from|update\\s+.*\\s+set)"@) && regex_matches("(?i)(select\\s+.*\\s+from|insert\\s+into|delete\\s+from|update\\s+.*\\s+set)"@, text)),
{
}

/// A call whose one argument is a template literal with an expression is
/// reported, with the literal's text, exactly when the SQL regex
/// `(?i)(select\s+.*\s+from|insert\s+into|delete\s+from|update\s+.*\s+set)`
/// matches that text; otherwise it is not reported.
pub proof fn lemma_sql_template_argument(node: JsonValue, arg: JsonValue, literals: LiteralIdentifiers)
    requires
        node.spec_get_str("type"@) == Some("CallExpression"@),
        node.spec_get_array("arguments"@) == Some(seq![arg]),
        arg.spec_get_str("type"@) == Some("TemplateLiteral"@),
        arg.spec_get_array("expressions"@) matches Some(e) && e.len() > 0,
    ensures
        spec_sql_injection(node, literals) == if regex_valid("(?i)(select\\s+.*\\s+from|insert\\s+into|delete\\s+from|update\\s+.*\\s+set)"@) && regex_matches("(?i)(select\\s+.*\\s+from|insert\\s+into|delete\\s+from|update\\s+.*\\s+set)"@, spec_to_literal(arg)) {
            Some(spec_to_literal(arg))
        } else {
            None
        },
{
    reveal_strlit("Identifier");
    reveal_strlit("TemplateLiteral");
    assert("Identifier"@.len() != "TemplateLiteral"@.len());
    assert(spec_node_type(arg) == Some("TemplateLiteral"@));
    assert(seq![arg].drop_first() =~= Seq::<JsonValue>::empty());
    assert(seq![arg][0] == arg);
    assert(spec_sql_arguments(Seq::<JsonValue>::empty(), literals) is None);
    assert(spec_sql_arguments(seq![arg], literals) == spec_sql_argument(arg, literals));
}

fn sql_text(text: &str) -> (r: bool)
    ensures
        r == looks_like_sql(text@),
{
    pattern_matches("(?i)(select\\s+.*\\s+from|insert\\s+into|delete\\s+from|update\\s+.*\\s+set)", text)
}

/// The validator: the SQL text built into an argument of a call, where
/// `literals` are the literal values the tracer knows of identifiers.
pub fn validate_node(node: &JsonValue, literals: &LiteralIdentifiers) -> (r: Option<String>)
    ensures
        opt_view(r) == spec_sql_injection(*node, *literals),
{
    match node_type(node) {
        Some(t) => {
            if !str_eq(t, "CallExpression") {
                return None;
            }
        },
        None => {
            return None;
        },
    }
    let arguments = match node.get_array("arguments") {
        Some(a) => a,
        None => {
            return None;
        },
    };
    let mut i: usize = 0;
    proof {
        assert(arguments@.skip(0) =~= arguments@);
    }
    while i < arguments.len()
        invariant
            0 <= i <= arguments@.len(),
            spec_sql_injection(*node, *literals) == spec_sql_arguments(arguments@.skip(i as int), *literals),
        decreases arguments.len() - i,
    {
        proof {
            assert(arguments@.skip(i as int).drop_first() =~= arguments@.skip(i + 1));
            assert(arguments@.skip(i as int)[0] == arguments@[i as int]);
        }
        let arg_node = &arguments[i];
        match node_type(arg_node) {
            Some(t) => {
                if str_eq(t, "Identifier") {
                    match identifier_name(arg_node) {
                        Some(name) => match literals.get(name) {
                            Some((ty, value)) => {
                                if str_eq(ty.as_str(), "TemplateLiteral") && sql_text(value.as_str()) {
                                    return Some(value);
                                }
                            },
                            None => {},
                        },
                        None => {},
                    }
                } else if str_eq(t, "TemplateLiteral") {
                    let has_expressions = match arg_node.get_array("expressions") {
                        Some(e) => e.len() > 0,
                        None => false,
                    };
                    if has_expressions {
                        let literal = to_literal(arg_node);
                        if sql_text(literal.as_str()) {
                            return Some(literal);
                        }
                    }
                }
            },
            None => {},
        }
        i = i + 1;
    }
    None
}

} // verus!
