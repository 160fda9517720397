//! The `isESMExport` probe.

use vstd::prelude::*;

use crate::estree::types::{is_type, node_type, spec_is_type, spec_node_type};
use crate::json::JsonValue;
use crate::probe::{opt_view, ProbeInfo};
use crate::probes::strings;
use crate::text::{str_eq, to_string, view_strings};

verus! {

/// The `isESMExport` probe.
pub struct IsEsmExport;

impl IsEsmExport {
    pub fn name(&self) -> (r: String)
        ensures
            r@ == "isESMExport"@,
    {
        to_string("isESMExport")
    }

    /// The ESTree node types the probe handles.
    pub fn node_types(&self) -> (r: Option<Vec<String>>)
        ensures
            match r {
                Some(v) => Some(view_strings(v@)),
                None => None::<Seq<Seq<char>>>,
            } == Some(seq!["ExportNamedDeclaration"@, "ExportAllDeclaration"@]),
    {
        Some(strings(&["ExportNamedDeclaration", "ExportAllDeclaration"]))
    }

    pub fn break_on_match(&self) -> (r: bool)
        ensures
            r == true,
    {
        true
    }

    pub fn break_group(&self) -> (r: Option<String>)
        ensures
            opt_view(r) == None::<Seq<char>>,
    {
        None
    }

    /// What the runner needs to know of the probe.
    pub fn info(&self) -> (r: ProbeInfo)
        ensures
            r.name@ == "isESMExport"@,
            match r.node_types {
                Some(v) => Some(view_strings(v@)),
                None => None::<Seq<Seq<char>>>,
            } == Some(seq!["ExportNamedDeclaration"@, "ExportAllDeclaration"@]),
            r.break_on_match == true,
            opt_view(r.break_group) == None::<Seq<char>>,
    {
        ProbeInfo {
            name: self.name(),
            node_types: self.node_types(),
            break_on_match: self.break_on_match(),
            break_group: self.break_group(),
        }
    }
}

} // verus!

verus! {

/// The validator: a named or star export whose source is a string literal.
pub open spec fn spec_is_export_from(node: JsonValue) -> bool {
    &&& (spec_node_type(node) == Some("ExportNamedDeclaration"@) || spec_node_type(node) == Some(
        "ExportAllDeclaration"@,
    ))
    &&& node.spec_get("source"@) matches Some(source)
    &&& !(source is Null)
    &&& spec_is_type(source, "Literal"@)
    &&& source.spec_get("value"@) matches Some(JsonValue::String(_, _))
}

/// The validator: a named or star export whose source is a string literal.
pub fn validate_node(node: &JsonValue) -> (r: bool)
    ensures
        r == spec_is_export_from(*node),
{
    let is_export = match node_type(node) {
        Some(t) => str_eq(t, "ExportNamedDeclaration") || str_eq(t, "ExportAllDeclaration"),
        None => false,
    };
    if !is_export {
        return false;
    }
    match node.get("source") {
        Some(source) => !source.is_null() && is_type(source, "Literal") && match source.get(
            "value",
        ) {
            Some(v) => v.is_string(),
            None => false,
        },
        None => false,
    }
}

/// The dependency an export records: its source's string.
pub fn export_dependency(node: &JsonValue) -> (r: String)
    ensures
        r@ == match node.spec_get("source"@) {
            Some(source) => match source.spec_get_str("value"@) {
                Some(v) => v,
                None => Seq::empty(),
            },
            None => Seq::empty(),
        },
{
    let value = match node.get("source") {
        Some(source) => match source.get_str("value") {
            Some(v) => v,
            None => "",
        },
        None => "",
    };
    proof {
        reveal_strlit("");
        assert(""@ =~= Seq::<char>::empty());
    }
    to_string(value)
}

} // verus!
