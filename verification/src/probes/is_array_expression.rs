//! The `isArrayExpression` probe.

use vstd::prelude::*;

use crate::probe::{opt_view, ProbeInfo};
use crate::probes::strings;
use crate::text::{to_string, view_strings};
use crate::estree::types::{is_literal, spec_is_literal};
use crate::json::JsonValue;

verus! {

/// The `isArrayExpression` probe.
pub struct IsArrayExpression;

impl IsArrayExpression {
    pub fn name(&self) -> (r: String)
        ensures
            r@ == "isArrayExpression"@,
    {
        to_string("isArrayExpression")
    }

    /// The ESTree node types the probe handles.
    pub fn node_types(&self) -> (r: Option<Vec<String>>)
        ensures
            match r {
                Some(v) => Some(view_strings(v@)),
                None => None::<Seq<Seq<char>>>,
            } == Some(seq!["ArrayExpression"@]),
    {
        Some(strings(&["ArrayExpression"]))
    }

    pub fn break_on_match(&self) -> (r: bool)
        ensures
            r == false,
    {
        false
    }

    pub fn break_group(&self) -> (r: Option<String>)
        ensures
            opt_view(r) == None::<Seq<char>>,
    {
        None
    }

    /// What the runner needs to know of the probe.
    pub fn info(&self) -> (r: ProbeInfo)
        ensures
            r.name@ == "isArrayExpression"@,
            match r.node_types {
                Some(v) => Some(view_strings(v@)),
                None => None::<Seq<Seq<char>>>,
            } == Some(seq!["ArrayExpression"@]),
            r.break_on_match == false,
            opt_view(r.break_group) == None::<Seq<char>>,
    {
        ProbeInfo {
            name: self.name(),
            node_types: self.node_types(),
            break_on_match: self.break_on_match(),
            break_group: self.break_group(),
        }
    }
}

} // verus!

verus! {

/// The positions of the literal elements of an array expression.
pub open spec fn literal_positions(elements: Seq<JsonValue>) -> Seq<int>
    decreases elements.len(),
{
    if elements.len() == 0 {
        Seq::empty()
    } else if spec_is_literal(elements.last()) {
        literal_positions(elements.drop_last()).push(elements.len() - 1)
    } else {
        literal_positions(elements.drop_last())
    }
}

impl IsArrayExpression {
    /// Every array expression is validated.
    pub fn validate_node(&self, node: &JsonValue) -> (r: bool)
        ensures
            r,
    {
        true
    }

    /// The positions of the elements that the probe hands to the literal
    /// analysis: the literals among the array's elements, in order.
    pub fn literal_elements(&self, node: &JsonValue) -> (r: Vec<usize>)
        ensures
            r@.map_values(|i: usize| i as int) == match node.spec_get_array("elements"@) {
                Some(elements) => literal_positions(elements),
                None => Seq::empty(),
            },
    {
        let mut r: Vec<usize> = Vec::new();
        match node.get_array("elements") {
            Some(elements) => {
                let mut i: usize = 0;
                while i < elements.len()
                    invariant
                        0 <= i <= elements@.len(),
                        r@.map_values(|k: usize| k as int) == literal_positions(elements@.take(i as int)),
                    decreases elements.len() - i,
                {
                    assert(elements@.take(i + 1).drop_last() =~= elements@.take(i as int));
                    if is_literal(&elements[i]) {
                        r.push(i);
                    }
                    assert(r@.map_values(|k: usize| k as int) =~= literal_positions(elements@.take(i + 1)));
                    i = i + 1;
                }
                assert(elements@.take(elements@.len() as int) =~= elements@);
            },
            None => {
                assert(r@.map_values(|k: usize| k as int) =~= Seq::<int>::empty());
            },
        }
        r
    }
}

} // verus!
