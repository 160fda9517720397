//! Node kinds and the fields that most rules read.

use vstd::prelude::*;

use crate::json::JsonValue;
use crate::text::{str_eq, to_string};

verus! {

/// The `type` field of a node, when it is one.
pub open spec fn spec_node_type(v: JsonValue) -> Option<Seq<char>> {
    v.spec_get_str("type"@)
}

/// A JSON object with a string `type` field.
pub open spec fn spec_is_node(v: JsonValue) -> bool {
    spec_node_type(v) is Some
}

pub open spec fn spec_is_type(v: JsonValue, ty: Seq<char>) -> bool {
    spec_node_type(v) == Some(ty)
}

pub open spec fn spec_is_literal(v: JsonValue) -> bool {
    spec_is_type(v, "Literal"@)
}

pub open spec fn spec_is_string_literal(v: JsonValue) -> bool {
    spec_is_literal(v) && v.spec_get("value"@) matches Some(JsonValue::String(_, _))
}

pub open spec fn spec_is_numeric_literal(v: JsonValue) -> bool {
    spec_is_literal(v) && v.spec_get("value"@) matches Some(JsonValue::Number(_))
}

/// The `raw` text of the `value` of a template element.
pub open spec fn spec_value_raw(quasi: JsonValue) -> Option<Seq<char>> {
    match quasi.spec_get("value"@) {
        Some(value) => value.spec_get_str("raw"@),
        None => None,
    }
}

pub open spec fn spec_is_template_literal(v: JsonValue) -> bool {
    &&& spec_is_type(v, "TemplateLiteral"@)
    &&& v.spec_get("quasis"@) matches Some(quasis)
    &&& quasis.spec_at(0) matches Some(first)
    &&& spec_is_type(first, "TemplateElement"@)
    &&& spec_value_raw(first) is Some
}

pub open spec fn spec_is_function_node(v: JsonValue) -> bool {
    ||| spec_is_type(v, "FunctionDeclaration"@)
    ||| spec_is_type(v, "FunctionExpression"@)
    ||| spec_is_type(v, "ArrowFunctionExpression"@)
}

/// The string `value` of a `Literal` node.
pub open spec fn spec_literal_str(v: JsonValue) -> Option<Seq<char>> {
    if spec_is_literal(v) {
        v.spec_get_str("value"@)
    } else {
        None
    }
}

/// The `name` of an `Identifier` node.
pub open spec fn spec_identifier_name(v: JsonValue) -> Option<Seq<char>> {
    if spec_is_type(v, "Identifier"@) {
        v.spec_get_str("name"@)
    } else {
        None
    }
}

/// `isNode`: a JSON object with a string `type` field.
pub fn is_node(value: &JsonValue) -> (r: bool)
    ensures
        r == spec_is_node(*value),
{
    node_type(value).is_some()
}

/// The `type` field of a node, when it is one.
pub fn node_type(value: &JsonValue) -> (r: Option<&str>)
    ensures
        r matches Some(s) ==> spec_node_type(*value) == Some(s@),
        r is None ==> spec_node_type(*value) is None,
{
    value.get_str("type")
}

pub fn is_type(value: &JsonValue, ty: &str) -> (r: bool)
    ensures
        r == spec_is_type(*value, ty@),
{
    match node_type(value) {
        Some(t) => str_eq(t, ty),
        None => false,
    }
}

pub fn is_literal(node: &JsonValue) -> (r: bool)
    ensures
        r == spec_is_literal(*node),
{
    is_type(node, "Literal")
}

pub fn is_string_literal(node: &JsonValue) -> (r: bool)
    ensures
        r == spec_is_string_literal(*node),
{
    is_literal(node) && match node.get("value") {
        Some(v) => v.is_string(),
        None => false,
    }
}

pub fn is_numeric_literal(node: &JsonValue) -> (r: bool)
    ensures
        r == spec_is_numeric_literal(*node),
{
    is_literal(node) && match node.get("value") {
        Some(v) => v.is_number(),
        None => false,
    }
}

/// The `raw` text of the `value` of a template element.
pub fn value_raw(quasi: &JsonValue) -> (r: Option<&str>)
    ensures
        r matches Some(s) ==> spec_value_raw(*quasi) == Some(s@),
        r is None ==> spec_value_raw(*quasi) is None,
{
    match quasi.get("value") {
        Some(value) => value.get_str("raw"),
        None => None,
    }
}

pub fn is_template_literal(node: &JsonValue) -> (r: bool)
    ensures
        r == spec_is_template_literal(*node),
{
    if !is_type(node, "TemplateLiteral") {
        return false;
    }
    let first_quasi = match node.get("quasis") {
        Some(quasis) => match quasis.at(0) {
            Some(first) => first,
            None => return false,
        },
        None => return false,
    };
    is_type(first_quasi, "TemplateElement") && value_raw(first_quasi).is_some()
}

pub fn is_function_node(node: &JsonValue) -> (r: bool)
    ensures
        r == spec_is_function_node(*node),
{
    is_type(node, "FunctionDeclaration") || is_type(node, "FunctionExpression") || is_type(
        node,
        "ArrowFunctionExpression",
    )
}

pub fn is_call_expression(node: &JsonValue) -> (r: bool)
    ensures
        r == spec_is_type(*node, "CallExpression"@),
{
    is_type(node, "CallExpression")
}

pub fn is_identifier(node: &JsonValue) -> (r: bool)
    ensures
        r == spec_is_type(*node, "Identifier"@),
{
    is_type(node, "Identifier")
}

pub fn is_member_expression(node: &JsonValue) -> (r: bool)
    ensures
        r == spec_is_type(*node, "MemberExpression"@),
{
    is_type(node, "MemberExpression")
}

/// The string `value` of a `Literal` node.
pub fn literal_str(node: &JsonValue) -> (r: Option<&str>)
    ensures
        r matches Some(s) ==> spec_literal_str(*node) == Some(s@),
        r is None ==> spec_literal_str(*node) is None,
{
    if is_literal(node) {
        node.get_str("value")
    } else {
        None
    }
}

/// The `name` of an `Identifier` node.
pub fn identifier_name(node: &JsonValue) -> (r: Option<&str>)
    ensures
        r matches Some(s) ==> spec_identifier_name(*node) == Some(s@),
        r is None ==> spec_identifier_name(*node) is None,
{
    if is_identifier(node) {
        node.get_str("name")
    } else {
        None
    }
}

/// Values that identifiers are known to hold, consulted when a rule
/// resolves an identifier to a literal. A name resolves to the value of its
/// first entry.
pub struct IdentifierLookup {
    pub entries: Vec<(String, String)>,
}

/// The value that `name` resolves to through `entries`.
pub open spec fn lookup_in(entries: Seq<(String, String)>, name: Seq<char>) -> Option<Seq<char>>
    decreases entries.len(),
{
    if entries.len() == 0 {
        None
    } else if entries[0].0@ == name {
        Some(entries[0].1@)
    } else {
        lookup_in(entries.drop_first(), name)
    }
}

/// A lookup as the rules see it: the value that each name resolves to.
pub type LookupFn = spec_fn(Seq<char>) -> Option<Seq<char>>;

/// The lookup that resolves nothing.
pub open spec fn no_lookup() -> LookupFn {
    |name: Seq<char>| None::<Seq<char>>
}

impl View for IdentifierLookup {
    type V = LookupFn;

    open spec fn view(&self) -> LookupFn {
        |name: Seq<char>| lookup_in(self.entries@, name)
    }
}

impl IdentifierLookup {
    pub open spec fn spec_lookup(&self, name: Seq<char>) -> Option<Seq<char>> {
        lookup_in(self.entries@, name)
    }

    /// The lookup that resolves nothing.
    pub fn noop() -> (r: IdentifierLookup)
        ensures
            forall|name: Seq<char>| r.spec_lookup(name) is None,
            r@ == no_lookup(),
    {
        let r = IdentifierLookup { entries: Vec::new() };
        assert(r@ =~= no_lookup());
        r
    }

    /// The value that `name` resolves to.
    pub fn lookup(&self, name: &str) -> (r: Option<String>)
        ensures
            r matches Some(s) ==> self.spec_lookup(name@) == Some(s@),
            r is None ==> self.spec_lookup(name@) is None,
    {
        let mut i: usize = 0;
        assert(self.entries@.skip(0) =~= self.entries@);
        while i < self.entries.len()
            invariant
                0 <= i <= self.entries@.len(),
                self.spec_lookup(name@) == lookup_in(self.entries@.skip(i as int), name@),
            decreases self.entries.len() - i,
        {
            assert(self.entries@.skip(i as int).drop_first() =~= self.entries@.skip(i + 1));
            if str_eq(self.entries[i].0.as_str(), name) {
                return Some(to_string(self.entries[i].1.as_str()));
            }
            i = i + 1;
        }
        None
    }
}

/// The lookup that resolves no identifier.
pub fn noop_lookup(name: &str) -> (r: Option<String>)
    ensures
        r is None,
{
    None
}

/// The literal values the variable tracer knows of identifiers: each
/// name with the ESTree type of the literal it holds and its string value.
/// A name resolves to its first entry.
pub struct LiteralIdentifiers {
    pub entries: Vec<(String, String, String)>,
}

/// The (type, value) of the literal that `name` holds through `entries`.
pub open spec fn literal_in(entries: Seq<(String, String, String)>, name: Seq<char>) -> Option<
    (Seq<char>, Seq<char>),
>
    decreases entries.len(),
{
    if entries.len() == 0 {
        None
    } else if entries[0].0@ == name {
        Some((entries[0].1@, entries[0].2@))
    } else {
        literal_in(entries.drop_first(), name)
    }
}

impl LiteralIdentifiers {
    /// The (type, value) of the literal a name holds.
    pub open spec fn spec_get(&self, name: Seq<char>) -> Option<(Seq<char>, Seq<char>)> {
        literal_in(self.entries@, name)
    }

    /// The (type, value) of the literal a name holds.
    pub fn get(&self, name: &str) -> (r: Option<(String, String)>)
        ensures
            match r {
                Some(p) => self.spec_get(name@) == Some((p.0@, p.1@)),
                None => self.spec_get(name@) is None,
            },
    {
        let mut i: usize = 0;
        assert(self.entries@.skip(0) =~= self.entries@);
        while i < self.entries.len()
            invariant
                0 <= i <= self.entries@.len(),
                self.spec_get(name@) == literal_in(self.entries@.skip(i as int), name@),
            decreases self.entries.len() - i,
        {
            assert(self.entries@.skip(i as int).drop_first() =~= self.entries@.skip(i + 1));
            if str_eq(self.entries[i].0.as_str(), name) {
                return Some((to_string(self.entries[i].1.as_str()), to_string(self.entries[i].2.as_str())));
            }
            i = i + 1;
        }
        None
    }
}

} // verus!
