//! Source locations of nodes.

use vstd::prelude::*;

use crate::json::JsonValue;

verus! {

/// A line and a column in the source.
#[derive(Debug, Clone, Copy, PartialEq, Eq, Structural)]
pub struct Position {
    pub line: u64,
    pub column: u64,
}

/// A `SourceLocation` as `{ start: { line, column }, end: { line, column } }`.
#[derive(Debug, Clone, Copy, PartialEq, Eq, Structural)]
pub struct SourceLocation {
    pub start: Position,
    pub end: Position,
}

/// The unsigned integer held by a JSON value.
pub open spec fn spec_as_u64(v: JsonValue) -> Option<u64> {
    match v {
        JsonValue::Number(n) => n.as_u64,
        _ => None,
    }
}

/// A `{ line, column }` object (or a `[line, column]` array), as a
/// `Position` is read from JSON.
pub open spec fn spec_position(v: JsonValue) -> Option<Position> {
    match v {
        JsonValue::Object(_) => match (v.spec_get("line"@), v.spec_get("column"@)) {
            (Some(l), Some(c)) => match (spec_as_u64(l), spec_as_u64(c)) {
                (Some(line), Some(column)) => Some(Position { line, column }),
                _ => None,
            },
            _ => None,
        },
        JsonValue::Array(items) => if items@.len() == 2 {
            match (spec_as_u64(items@[0]), spec_as_u64(items@[1])) {
                (Some(line), Some(column)) => Some(Position { line, column }),
                _ => None,
            }
        } else {
            None
        },
        _ => None,
    }
}

/// A `{ start, end }` object (or a `[start, end]` array) of positions.
pub open spec fn spec_location(v: JsonValue) -> Option<SourceLocation> {
    match v {
        JsonValue::Object(_) => match (v.spec_get("start"@), v.spec_get("end"@)) {
            (Some(s), Some(e)) => match (spec_position(s), spec_position(e)) {
                (Some(start), Some(end)) => Some(SourceLocation { start, end }),
                _ => None,
            },
            _ => None,
        },
        JsonValue::Array(items) => if items@.len() == 2 {
            match (spec_position(items@[0]), spec_position(items@[1])) {
                (Some(start), Some(end)) => Some(SourceLocation { start, end }),
                _ => None,
            }
        } else {
            None
        },
        _ => None,
    }
}

/// The `loc` field of a node, when present and well-formed.
pub open spec fn spec_node_location(node: JsonValue) -> Option<SourceLocation> {
    match node.spec_get("loc"@) {
        Some(loc) => spec_location(loc),
        None => None,
    }
}

pub fn as_u64(v: &JsonValue) -> (r: Option<u64>)
    ensures
        r == spec_as_u64(*v),
{
    match v {
        JsonValue::Number(n) => n.as_u64,
        _ => None,
    }
}

fn position_of(v: &JsonValue) -> (r: Option<Position>)
    ensures
        r == spec_position(*v),
{
    match v {
        JsonValue::Object(_) => {
            let line = match v.get("line") {
                Some(l) => as_u64(l),
                None => None,
            };
            let column = match v.get("column") {
                Some(c) => as_u64(c),
                None => None,
            };
            match (line, column) {
                (Some(line), Some(column)) => Some(Position { line, column }),
                _ => None,
            }
        },
        JsonValue::Array(items) => if items.len() == 2 {
            match (as_u64(&items[0]), as_u64(&items[1])) {
                (Some(line), Some(column)) => Some(Position { line, column }),
                _ => None,
            }
        } else {
            None
        },
        _ => None,
    }
}

fn location_of(v: &JsonValue) -> (r: Option<SourceLocation>)
    ensures
        r == spec_location(*v),
{
    match v {
        JsonValue::Object(_) => {
            let start = match v.get("start") {
                Some(s) => position_of(s),
                None => None,
            };
            let end = match v.get("end") {
                Some(e) => position_of(e),
                None => None,
            };
            match (start, end) {
                (Some(start), Some(end)) => Some(SourceLocation { start, end }),
                _ => None,
            }
        },
        JsonValue::Array(items) => if items.len() == 2 {
            match (position_of(&items[0]), position_of(&items[1])) {
                (Some(start), Some(end)) => Some(SourceLocation { start, end }),
                _ => None,
            }
        } else {
            None
        },
        _ => None,
    }
}

impl SourceLocation {
    /// The `loc` field of a node, when present and well-formed.
    pub fn from_node(node: &JsonValue) -> (r: Option<SourceLocation>)
        ensures
            r == spec_node_location(*node),
    {
        match node.get("loc") {
            Some(loc) => location_of(loc),
            None => None,
        }
    }
}

/// The root location: all zeros.
pub fn root_location() -> (r: SourceLocation)
    ensures
        r == (SourceLocation {
            start: Position { line: 0, column: 0 },
            end: Position { line: 0, column: 0 },
        }),
{
    SourceLocation { start: Position { line: 0, column: 0 }, end: Position { line: 0, column: 0 } }
}

/// A location as two `[line, column]` pairs: where it starts and ends.
#[derive(Debug, Clone, Copy, PartialEq, Eq, Structural)]
pub struct SourceArrayLocation {
    pub start_line: u64,
    pub start_column: u64,
    pub end_line: u64,
    pub end_column: u64,
}

/// The pairs of a location; no location gives the root location (zeros).
pub open spec fn spec_array_location(location: Option<SourceLocation>) -> SourceArrayLocation {
    match location {
        Some(l) => SourceArrayLocation {
            start_line: l.start.line,
            start_column: l.start.column,
            end_line: l.end.line,
            end_column: l.end.column,
        },
        None => SourceArrayLocation { start_line: 0, start_column: 0, end_line: 0, end_column: 0 },
    }
}

/// The pairs of a location, or of the root location.
pub fn to_array_location(location: Option<SourceLocation>) -> (r: SourceArrayLocation)
    ensures
        r == spec_array_location(location),
{
    let l = match location {
        Some(l) => l,
        None => root_location(),
    };
    SourceArrayLocation {
        start_line: l.start.line,
        start_column: l.start.column,
        end_line: l.end.line,
        end_column: l.end.column,
    }
}

} // verus!
