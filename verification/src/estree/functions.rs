//! Reading identifiers, strings and bindings out of ESTree expressions.

use vstd::prelude::*;

use crate::estree::literal::{js_string, spec_js_string};
use crate::estree::types::{
    is_call_expression, is_identifier, is_literal, is_member_expression, is_node,
    is_string_literal, is_type, no_lookup, spec_is_string_literal, spec_is_type,
    IdentifierLookup, LookupFn,
};
use crate::estree::types::{spec_value_raw, value_raw};
use crate::hex::{decode_hex_lossy, is_hex_str, spec_decode_hex, spec_hex_to_string, spec_is_hex};
use crate::json::JsonValue;
use crate::text::{
    concat, decimal, is_blank, join, join_seq, lemma_view_strings_push, push_char, push_decimal,
    str_eq, str_is_blank, to_string, view_strings,
};

verus! {

/// The one-element sequence of a present value.
pub open spec fn opt_seq(o: Option<Seq<char>>) -> Seq<Seq<char>> {
    match o {
        Some(s) => seq![s],
        None => Seq::empty(),
    }
}

pub open spec fn or_empty(o: Option<Seq<char>>) -> Seq<char> {
    match o {
        Some(s) => s,
        None => Seq::empty(),
    }
}

/// The character that `String.fromCharCode` makes of a UTF-16 code unit;
/// an unpaired surrogate becomes U+FFFD.
pub open spec fn char_of_unit(u: int) -> char {
    if 0xD800 <= u <= 0xDFFF {
        '\u{FFFD}'
    } else {
        u as char
    }
}

/// `Number(value)` truncated to an integer, when the value is numeric.
pub open spec fn spec_char_code(value: JsonValue) -> Option<int> {
    match value {
        JsonValue::Number(n) => Some(n.truncated as int),
        JsonValue::String(s, parsed) => if is_blank(s@) {
            Some(0)
        } else {
            match parsed {
                Some(p) => Some(p as int),
                None => None,
            }
        },
        JsonValue::Bool(b) => Some(
            if b {
                1
            } else {
                0
            },
        ),
        JsonValue::Null => Some(0),
        _ => None,
    }
}

// ---------------------------------------------------------------------------
// Member expressions, string concatenations and arrays.
// ---------------------------------------------------------------------------

/// The identifier parts of a `MemberExpression`.
pub open spec fn spec_member_parts(node: JsonValue, lk: LookupFn) -> Seq<Seq<char>>
    decreases node, 1int,
{
    match node.spec_get("object"@) {
        None => Seq::empty(),
        Some(object) => {
            proof {
                node.lemma_get_decreases("object"@);
                node.lemma_get_decreases("property"@);
            }
            let head = if spec_is_type(object, "MemberExpression"@) {
                spec_member_parts(object, lk)
            } else if spec_is_type(object, "Identifier"@) {
                opt_seq(object.spec_get_str("name"@))
            } else if spec_is_type(object, "Literal"@) {
                opt_seq(object.spec_get_str("value"@))
            } else {
                Seq::empty()
            };
            match node.spec_get("property"@) {
                None => head,
                Some(property) => head + spec_property_part(property, lk),
            }
        },
    }
}

/// What the `property` of a member expression adds to its identifier.
pub open spec fn spec_property_part(property: JsonValue, lk: LookupFn) -> Seq<Seq<char>>
    decreases property, 2int,
{
    if spec_is_type(property, "Identifier"@) {
        let name = or_empty(property.spec_get_str("name"@));
        seq![
            match lk(name) {
                Some(v) => v,
                None => name,
            },
        ]
    } else if spec_is_type(property, "Literal"@) {
        opt_seq(property.spec_get_str("value"@))
    } else if spec_is_type(property, "CallExpression"@) {
        match property.spec_get_array("arguments"@) {
            Some(args) => if args.len() > 0 && spec_is_type(args[0], "Literal"@) {
                match args[0].spec_get_str("value"@) {
                    Some(v) => if spec_is_hex(v) {
                        seq![spec_decode_hex(v)]
                    } else {
                        Seq::empty()
                    },
                    None => Seq::empty(),
                }
            } else {
                Seq::empty()
            },
            None => Seq::empty(),
        }
    } else if spec_is_type(property, "BinaryExpression"@) {
        let literal = match spec_concat_binary(property, lk, false) {
            Some(parts) => parts.flatten(),
            None => Seq::empty(),
        };
        if !is_blank(literal) {
            seq![literal]
        } else {
            Seq::empty()
        }
    } else {
        Seq::empty()
    }
}

/// A node kind that a strict string concatenation accepts.
pub open spec fn spec_binary_supported(child: JsonValue) -> bool {
    ||| spec_is_type(child, "Literal"@)
    ||| spec_is_type(child, "BinaryExpression"@)
    ||| spec_is_type(child, "ArrayExpression"@)
    ||| spec_is_type(child, "Identifier"@)
}

/// The string parts of `left + right`;
/// `None` when an operand is missing, or when `stop` is set and an operand
/// is of an unsupported kind.
pub open spec fn spec_concat_binary(node: JsonValue, lk: LookupFn, stop: bool) -> Option<
    Seq<Seq<char>>,
>
    decreases node, 1int,
{
    match (node.spec_get("left"@), node.spec_get("right"@)) {
        (Some(left), Some(right)) => {
            proof {
                node.lemma_get_decreases("left"@);
                node.lemma_get_decreases("right"@);
            }
            if stop && !(spec_binary_supported(left) && spec_binary_supported(right)) {
                None
            } else {
                match spec_binary_child(left, lk, stop) {
                    None => None,
                    Some(l) => match spec_binary_child(right, lk, stop) {
                        None => None,
                        Some(r) => Some(l + r),
                    },
                }
            }
        },
        _ => None,
    }
}

/// The string parts that one operand of a concatenation gives.
pub open spec fn spec_binary_child(child: JsonValue, lk: LookupFn, stop: bool) -> Option<
    Seq<Seq<char>>,
>
    decreases child, 2int,
{
    if spec_is_type(child, "BinaryExpression"@) {
        spec_concat_binary(child, lk, stop)
    } else if spec_is_type(child, "ArrayExpression"@) {
        Some(spec_array_strings(child, lk, true))
    } else if spec_is_type(child, "Literal"@) {
        Some(opt_seq(child.spec_get_str("value"@)))
    } else if spec_is_type(child, "Identifier"@) {
        match lk(or_empty(child.spec_get_str("name"@))) {
            Some(v) => if v.len() > 0 {
                Some(seq![v])
            } else {
                Some(Seq::empty())
            },
            None => Some(Seq::empty()),
        }
    } else {
        Some(Seq::empty())
    }
}

/// The strings of an `ArrayExpression`;
/// with `resolve_char_code`, numeric elements become the character of their
/// char code.
pub open spec fn spec_array_strings(node: JsonValue, lk: LookupFn, resolve_char_code: bool) -> Seq<
    Seq<char>,
>
    decreases node, 1int,
{
    if !spec_is_type(node, "ArrayExpression"@) {
        Seq::empty()
    } else {
        match node.spec_get_array("elements"@) {
            None => Seq::empty(),
            Some(rows) => {
                proof {
                    node.lemma_get_array_decreases("elements"@);
                }
                spec_array_rows(rows, lk, resolve_char_code)
            },
        }
    }
}

/// The string that a `Literal` element of an array gives.
pub open spec fn spec_literal_row(row: JsonValue, resolve_char_code: bool) -> Seq<Seq<char>> {
    let value = match row.spec_get("value"@) {
        Some(v) => v,
        None => JsonValue::Null,
    };
    if value.spec_as_str() == Some(Seq::<char>::empty()) {
        Seq::empty()
    } else if resolve_char_code {
        match spec_char_code(value) {
            Some(code) => seq![seq![char_of_unit(code % 65536)]],
            None => seq![spec_js_string(value)],
        }
    } else {
        seq![spec_js_string(value)]
    }
}

/// The strings of the elements `rows` of an array.
pub open spec fn spec_array_rows(rows: Seq<JsonValue>, lk: LookupFn, resolve_char_code: bool) -> Seq<
    Seq<char>,
>
    decreases rows, 1int,
{
    if rows.len() == 0 {
        Seq::empty()
    } else {
        proof {
            assert(decreases_to!(rows => rows[0]));
            assert(decreases_to!(rows => rows.subrange(1, rows.len() as int)));
        }
        let row = rows[0];
        let part = if row is Null {
            Seq::empty()
        } else if spec_is_type(row, "Literal"@) {
            spec_literal_row(row, resolve_char_code)
        } else if spec_is_type(row, "Identifier"@) {
            opt_seq(lk(or_empty(row.spec_get_str("name"@))))
        } else if spec_is_type(row, "CallExpression"@) {
            opt_seq(spec_join_array(row, lk))
        } else {
            Seq::empty()
        };
        part + spec_array_rows(rows.subrange(1, rows.len() as int), lk, resolve_char_code)
    }
}

/// `[...].join("sep")` resolved to its string.
pub open spec fn spec_join_array(node: JsonValue, lk: LookupFn) -> Option<Seq<char>>
    decreases node, 1int,
{
    if !spec_is_type(node, "CallExpression"@) {
        None
    } else {
        match (node.spec_get_array("arguments"@), node.spec_get("callee"@)) {
            (Some(args), Some(callee)) => {
                proof {
                    node.lemma_get_decreases("callee"@);
                    callee.lemma_get_decreases("object"@);
                }
                if args.len() != 1 || !spec_is_type(callee, "MemberExpression"@) {
                    None
                } else {
                    match callee.spec_get("object"@) {
                        None => None,
                        Some(object) => if !spec_is_type(object, "ArrayExpression"@) {
                            None
                        } else if join_seq(spec_member_parts(callee, no_lookup()), "."@)
                            != "join"@ || !spec_is_string_literal(args[0]) {
                            None
                        } else {
                            Some(
                                join_seq(
                                    spec_array_strings(object, lk, false),
                                    or_empty(args[0].spec_get_str("value"@)),
                                ),
                            )
                        },
                    }
                }
            },
            _ => None,
        }
    }
}

/// `char::from_u32`.
#[verifier::external_body]
fn char_from_u32(u: u32) -> (r: Option<char>)
    ensures
        r is Some <==> (u < 0xD800 || (0xE000 <= u && u <= 0x10FFFF)),
        r matches Some(c) ==> c as int == u as int,
{
    char::from_u32(u)
}

fn char_code(value: &JsonValue) -> (r: Option<i64>)
    ensures
        r matches Some(c) ==> spec_char_code(*value) == Some(c as int),
        r is None ==> spec_char_code(*value) is None,
{
    match value {
        JsonValue::Number(n) => Some(n.truncated),
        JsonValue::String(s, parsed) => if str_is_blank(s.as_str()) {
            Some(0)
        } else {
            *parsed
        },
        JsonValue::Bool(b) => Some(
            if *b {
                1
            } else {
                0
            },
        ),
        JsonValue::Null => Some(0),
        _ => None,
    }
}

/// `String.fromCharCode(code)` of a single code unit.
fn from_char_code(code: i64) -> (s: String)
    ensures
        s@ == seq![char_of_unit(code as int % 65536)],
{
    let unit = code.checked_rem_euclid(65536).unwrap();
    let c = match char_from_u32(unit as u32) {
        Some(c) => c,
        None => '\u{FFFD}',
    };
    let mut s = String::new();
    push_char(&mut s, c);
    s
}

fn null_value() -> (r: JsonValue)
    ensures
        r is Null,
{
    JsonValue::Null
}

fn push_opt(out: &mut Vec<String>, o: Option<String>)
    ensures
        view_strings(final(out)@) == view_strings(old(out)@) + opt_seq(
            match o {
                Some(s) => Some(s@),
                None => None,
            },
        ),
{
    match o {
        Some(s) => {
            proof { lemma_view_strings_push(out@, s); }
            out.push(s);
        },
        None => {
            assert(view_strings(out@) + Seq::<Seq<char>>::empty() =~= view_strings(out@));
        },
    }
}

fn push_one(out: &mut Vec<String>, s: String)
    ensures
        view_strings(final(out)@) == view_strings(old(out)@) + seq![s@],
{
    proof { lemma_view_strings_push(out@, s); }
    out.push(s);
    assert(view_strings(old(out)@).push(s@) =~= view_strings(old(out)@) + seq![s@]);
}

fn push_str_opt(out: &mut Vec<String>, o: Option<&str>)
    ensures
        view_strings(final(out)@) == view_strings(old(out)@) + opt_seq(
            match o {
                Some(s) => Some(s@),
                None => None,
            },
        ),
{
    match o {
        Some(s) => push_one(out, to_string(s)),
        None => push_opt(out, None),
    }
}

/// Return the complete identifier parts of a MemberExpression.
pub fn get_member_expression_identifier(node: &JsonValue, lookup: &IdentifierLookup) -> (r: Vec<
    String,
>)
    ensures
        view_strings(r@) == spec_member_parts(*node, lookup@),
    decreases node, 2int,
{
    let mut parts = Vec::new();
    collect_member_expression_identifier(node, lookup, &mut parts);
    assert(view_strings(parts@) =~= Seq::<Seq<char>>::empty() + spec_member_parts(
        *node,
        lookup@,
    ));
    parts
}

fn collect_member_expression_identifier(
    node: &JsonValue,
    lookup: &IdentifierLookup,
    out: &mut Vec<String>,
)
    ensures
        view_strings(final(out)@) == view_strings(old(out)@) + spec_member_parts(*node, lookup@),
    decreases node, 1int,
{
    let ghost start = view_strings(out@);
    let object = match node.get("object") {
        Some(object) => object,
        None => {
            assert(start + Seq::<Seq<char>>::empty() =~= start);
            return ;
        },
    };
    proof {
        node.lemma_get_decreases("object"@);
        node.lemma_get_decreases("property"@);
    }
    if is_member_expression(object) {
        collect_member_expression_identifier(object, lookup, out);
    } else if is_identifier(object) {
        push_str_opt(out, object.get_str("name"));
    } else if is_literal(object) {
        push_str_opt(out, object.get_str("value"));
    }
    let ghost mid = view_strings(out@);
    let property = match node.get("property") {
        Some(property) => property,
        None => {
            assert(mid =~= start + spec_member_parts(*node, lookup@));
            return ;
        },
    };
    let part = property_part(property, lookup);
    let mut k: usize = 0;
    while k < part.len()
        invariant
            0 <= k <= part@.len(),
            view_strings(out@) == mid + view_strings(part@).take(k as int),
        decreases part.len() - k,
    {
        push_one(out, to_string(part[k].as_str()));
        assert(view_strings(part@).take(k + 1) =~= view_strings(part@).take(k as int) + seq![
            part@[k as int]@,
        ]);
        assert(mid + view_strings(part@).take(k as int) + seq![part@[k as int]@] =~= mid
            + view_strings(part@).take(k + 1));
        k = k + 1;
    }
    assert(view_strings(part@).take(part@.len() as int) =~= view_strings(part@));
    assert(view_strings(out@) =~= start + spec_member_parts(*node, lookup@));
}

fn property_part(property: &JsonValue, lookup: &IdentifierLookup) -> (r: Vec<String>)
    ensures
        view_strings(r@) == spec_property_part(*property, lookup@),
    decreases property, 2int,
{
    let mut out: Vec<String> = Vec::new();
    if is_identifier(property) {
        let name = match property.get_str("name") {
            Some(n) => n,
            None => "",
        };
        proof {
            reveal_strlit("");
            assert(""@ =~= Seq::<char>::empty());
        }
        match lookup.lookup(name) {
            Some(v) => push_one(&mut out, v),
            None => push_one(&mut out, to_string(name)),
        }
    } else if is_literal(property) {
        push_str_opt(&mut out, property.get_str("value"));
    } else if is_call_expression(property) {
        if let Some(args) = property.get_array("arguments") {
            if args.len() > 0 && is_literal(&args[0]) {
                if let Some(value) = args[0].get_str("value") {
                    if is_hex_str(value) {
                        push_one(&mut out, decode_hex_lossy(value));
                    }
                }
            }
        }
    } else if is_type(property, "BinaryExpression") {
        let literal = match concat_binary_expression_parts(property, lookup, false) {
            Some(parts) => concat(&parts),
            None => String::new(),
        };
        if !str_is_blank(literal.as_str()) {
            push_one(&mut out, literal);
        }
    }
    assert(view_strings(out@) =~= spec_property_part(*property, lookup@));
    out
}

fn is_binary_supported(child: &JsonValue) -> (r: bool)
    ensures
        r == spec_binary_supported(*child),
{
    is_literal(child) || is_type(child, "BinaryExpression") || is_type(child, "ArrayExpression")
        || is_identifier(child)
}

/// The string parts of `left + right`. Returns `None` when an operand is
/// missing, or when `stop_on_unsupported_node` is set and an unsupported node
/// is found.
pub fn concat_binary_expression_parts(
    node: &JsonValue,
    lookup: &IdentifierLookup,
    stop_on_unsupported_node: bool,
) -> (r: Option<Vec<String>>)
    ensures
        r matches Some(parts) ==> spec_concat_binary(*node, lookup@, stop_on_unsupported_node)
            == Some(view_strings(parts@)),
        r is None ==> spec_concat_binary(*node, lookup@, stop_on_unsupported_node) is None,
    decreases node, 1int,
{
    let left = match node.get("left") {
        Some(l) => l,
        None => return None,
    };
    let right = match node.get("right") {
        Some(r) => r,
        None => return None,
    };
    proof {
        node.lemma_get_decreases("left"@);
        node.lemma_get_decreases("right"@);
    }
    if stop_on_unsupported_node && !(is_binary_supported(left) && is_binary_supported(right)) {
        return None;
    }
    let mut l = match binary_child(left, lookup, stop_on_unsupported_node) {
        Some(l) => l,
        None => return None,
    };
    let r = match binary_child(right, lookup, stop_on_unsupported_node) {
        Some(r) => r,
        None => return None,
    };
    let ghost lv = view_strings(l@);
    let mut k: usize = 0;
    while k < r.len()
        invariant
            0 <= k <= r@.len(),
            view_strings(l@) == lv + view_strings(r@).take(k as int),
        decreases r.len() - k,
    {
        push_one(&mut l, to_string(r[k].as_str()));
        assert(lv + view_strings(r@).take(k as int) + seq![r@[k as int]@] =~= lv + view_strings(
            r@,
        ).take(k + 1));
        k = k + 1;
    }
    assert(view_strings(r@).take(r@.len() as int) =~= view_strings(r@));
    Some(l)
}

fn binary_child(child: &JsonValue, lookup: &IdentifierLookup, stop: bool) -> (r: Option<
    Vec<String>,
>)
    ensures
        r matches Some(parts) ==> spec_binary_child(*child, lookup@, stop) == Some(
            view_strings(parts@),
        ),
        r is None ==> spec_binary_child(*child, lookup@, stop) is None,
    decreases child, 2int,
{
    if is_type(child, "BinaryExpression") {
        concat_binary_expression_parts(child, lookup, stop)
    } else if is_type(child, "ArrayExpression") {
        Some(array_expression_to_string_with(child, lookup, true))
    } else if is_literal(child) {
        let mut out = Vec::new();
        push_str_opt(&mut out, child.get_str("value"));
        assert(view_strings(out@) =~= opt_seq(child.spec_get_str("value"@)));
        Some(out)
    } else if is_identifier(child) {
        let name = match child.get_str("name") {
            Some(n) => n,
            None => "",
        };
        proof {
            reveal_strlit("");
            assert(""@ =~= Seq::<char>::empty());
        }
        let mut out = Vec::new();
        match lookup.lookup(name) {
            Some(v) => if v.unicode_len() > 0 {
                push_one(&mut out, v);
            },
            None => {},
        }
        assert(view_strings(out@) =~= spec_binary_child(*child, lookup@, stop).unwrap());
        Some(out)
    } else {
        let out = Vec::new();
        assert(view_strings(out@) =~= Seq::<Seq<char>>::empty());
        Some(out)
    }
}

/// The strings of an `ArrayExpression`.
pub fn array_expression_to_string(node: &JsonValue, lookup: &IdentifierLookup) -> (r: Vec<String>)
    ensures
        view_strings(r@) == spec_array_strings(*node, lookup@, true),
{
    array_expression_to_string_with(node, lookup, true)
}

pub fn array_expression_to_string_with(
    node: &JsonValue,
    lookup: &IdentifierLookup,
    resolve_char_code: bool,
) -> (r: Vec<String>)
    ensures
        view_strings(r@) == spec_array_strings(*node, lookup@, resolve_char_code),
    decreases node, 1int,
{
    let mut out: Vec<String> = Vec::new();
    if !is_node(node) || !is_type(node, "ArrayExpression") {
        assert(view_strings(out@) =~= Seq::<Seq<char>>::empty());
        return out;
    }
    let elements = match node.get_array("elements") {
        Some(e) => e,
        None => {
            assert(view_strings(out@) =~= Seq::<Seq<char>>::empty());
            return out;
        },
    };
    proof {
        node.lemma_get_array_decreases("elements"@);
    }
    let ghost rows = elements@;
    let mut i: usize = 0;
    assert(rows.subrange(0, rows.len() as int) =~= rows);
    while i < elements.len()
        invariant
            rows == elements@,
            decreases_to!(*node => rows),
            0 <= i <= rows.len(),
            view_strings(out@) + spec_array_rows(
                rows.subrange(i as int, rows.len() as int),
                lookup@,
                resolve_char_code,
            ) == spec_array_rows(rows, lookup@, resolve_char_code),
        decreases rows.len() - i,
    {
        let ghost rest = rows.subrange(i as int, rows.len() as int);
        let ghost before = view_strings(out@);
        let row = &elements[i];
        assert(rest[0] == *row);
        assert(rest.subrange(1, rest.len() as int) =~= rows.subrange(i + 1, rows.len() as int));
        proof {
            assert(decreases_to!(rows => rows[i as int]));
        }
        let part = row_part(row, lookup, resolve_char_code);
        push_opt(&mut out, part);
        assert(view_strings(out@) + spec_array_rows(
            rows.subrange(i + 1, rows.len() as int),
            lookup@,
            resolve_char_code,
        ) =~= before + spec_array_rows(rest, lookup@, resolve_char_code));
        i = i + 1;
    }
    assert(view_strings(out@) =~= view_strings(out@) + spec_array_rows(
        rows.subrange(i as int, rows.len() as int),
        lookup@,
        resolve_char_code,
    ));
    out
}

/// The string that one array element gives, if any.
fn row_part(row: &JsonValue, lookup: &IdentifierLookup, resolve_char_code: bool) -> (r: Option<
    String,
>)
    ensures
        opt_seq(
            match r {
                Some(s) => Some(s@),
                None => None,
            },
        ) == (if *row is Null {
            Seq::empty()
        } else if spec_is_type(*row, "Literal"@) {
            spec_literal_row(*row, resolve_char_code)
        } else if spec_is_type(*row, "Identifier"@) {
            opt_seq(lookup@(or_empty(row.spec_get_str("name"@))))
        } else if spec_is_type(*row, "CallExpression"@) {
            opt_seq(spec_join_array(*row, lookup@))
        } else {
            Seq::<Seq<char>>::empty()
        }),
    decreases row, 2int,
{
    if row.is_null() {
        return None;
    }
    if is_literal(row) {
        let null = null_value();
        let value = match row.get("value") {
            Some(v) => v,
            None => &null,
        };
        proof {
            reveal_strlit("");
            assert(""@ =~= Seq::<char>::empty());
        }
        match value.as_str() {
            Some(s) => if s.unicode_len() == 0 {
                assert(s@ =~= Seq::<char>::empty());
                return None;
            },
            None => {},
        }
        if resolve_char_code {
            match char_code(value) {
                Some(code) => Some(from_char_code(code)),
                None => Some(js_string(value)),
            }
        } else {
            Some(js_string(value))
        }
    } else if is_identifier(row) {
        let name = match row.get_str("name") {
            Some(n) => n,
            None => "",
        };
        proof {
            reveal_strlit("");
            assert(""@ =~= Seq::<char>::empty());
        }
        lookup.lookup(name)
    } else if is_call_expression(row) {
        join_array_expression(row, lookup)
    } else {
        None
    }
}

/// Resolves `[...].join("sep")`.
pub fn join_array_expression(node: &JsonValue, lookup: &IdentifierLookup) -> (r: Option<String>)
    ensures
        r matches Some(s) ==> spec_join_array(*node, lookup@) == Some(s@),
        r is None ==> spec_join_array(*node, lookup@) is None,
    decreases node, 1int,
{
    if !is_call_expression(node) {
        return None;
    }
    let args = match node.get_array("arguments") {
        Some(a) => a,
        None => return None,
    };
    let callee = match node.get("callee") {
        Some(c) => c,
        None => return None,
    };
    proof {
        node.lemma_get_decreases("callee"@);
        callee.lemma_get_decreases("object"@);
    }
    if args.len() != 1 || !is_member_expression(callee) {
        return None;
    }
    let object = match callee.get("object") {
        Some(o) => o,
        None => return None,
    };
    if !is_type(object, "ArrayExpression") {
        return None;
    }
    let noop = IdentifierLookup::noop();
    let id = join(&get_member_expression_identifier(callee, &noop), ".");
    if !str_eq(id.as_str(), "join") || !is_string_literal(&args[0]) {
        return None;
    }
    let separator = match args[0].get_str("value") {
        Some(s) => s,
        None => return None,
    };
    let parts = array_expression_to_string_with(object, lookup, false);
    Some(join(&parts, separator))
}


/// The lookup that resolves no identifier.
pub fn noop(name: &str) -> (r: Option<String>)
    ensures
        r is None,
{
    None
}

// ---------------------------------------------------------------------------
// Call expression identifiers.
// ---------------------------------------------------------------------------

pub struct GetCallExpressionIdentifierOptions {
    pub external_identifier_lookup: IdentifierLookup,
    /// Resolve the callee if it is itself a CallExpression (`require('x')()`).
    pub resolve_call_expression: bool,
}

impl Default for GetCallExpressionIdentifierOptions {
    fn default() -> (r: Self)
        ensures
            r.external_identifier_lookup@ == no_lookup(),
            r.resolve_call_expression,
    {
        GetCallExpressionIdentifierOptions {
            external_identifier_lookup: IdentifierLookup::noop(),
            resolve_call_expression: true,
        }
    }
}

/// Parts joined with dots, where an empty prefix is dropped rather than
/// followed by a dot.
pub open spec fn dotted(parts: Seq<Seq<char>>) -> Seq<char>
    decreases parts.len(),
{
    if parts.len() == 0 {
        Seq::empty()
    } else {
        let acc = dotted(parts.drop_last());
        if acc.len() == 0 {
            parts.last()
        } else {
            acc + seq!['.'] + parts.last()
        }
    }
}

/// The name that a call or `new` expression calls.
pub open spec fn spec_call_identifier(node: JsonValue, lk: LookupFn, resolve: bool) -> Option<
    Seq<char>,
>
    decreases node,
{
    if !(spec_is_type(node, "CallExpression"@) || spec_is_type(node, "NewExpression"@)) {
        None
    } else {
        match node.spec_get("callee"@) {
            None => None,
            Some(callee) => {
                proof {
                    node.lemma_get_decreases("callee"@);
                    callee.lemma_get_decreases("object"@);
                }
                if spec_is_type(callee, "Identifier"@) {
                    callee.spec_get_str("name"@)
                } else if spec_is_type(callee, "MemberExpression"@) {
                    match callee.spec_get("object"@) {
                        None => None,
                        Some(member_object) => {
                            let last_id = dotted(spec_member_parts(callee, lk));
                            if resolve && spec_is_type(member_object, "CallExpression"@) {
                                let inner = match spec_call_identifier(
                                    member_object,
                                    no_lookup(),
                                    true,
                                ) {
                                    Some(i) => i,
                                    None => seq!['n', 'u', 'l', 'l'],
                                };
                                Some(inner + seq!['.'] + last_id)
                            } else {
                                Some(last_id)
                            }
                        },
                    }
                } else if resolve {
                    spec_call_identifier(callee, lk, true)
                } else {
                    None
                }
            },
        }
    }
}

fn dotted_exec(parts: &Vec<String>) -> (r: String)
    ensures
        r@ == dotted(view_strings(parts@)),
{
    let mut last_id = String::new();
    let mut i: usize = 0;
    while i < parts.len()
        invariant
            0 <= i <= parts@.len(),
            last_id@ == dotted(view_strings(parts@).take(i as int)),
        decreases parts.len() - i,
    {
        assert(view_strings(parts@).take(i + 1).drop_last() =~= view_strings(parts@).take(
            i as int,
        ));
        if last_id.unicode_len() == 0 {
            last_id = to_string(parts[i].as_str());
        } else {
            push_char(&mut last_id, '.');
            last_id.append(parts[i].as_str());
        }
        i = i + 1;
    }
    assert(view_strings(parts@).take(parts@.len() as int) =~= view_strings(parts@));
    last_id
}

pub fn get_call_expression_identifier(
    node: &JsonValue,
    options: &GetCallExpressionIdentifierOptions,
) -> (r: Option<String>)
    ensures
        r matches Some(s) ==> spec_call_identifier(
            *node,
            options.external_identifier_lookup@,
            options.resolve_call_expression,
        ) == Some(s@),
        r is None ==> spec_call_identifier(
            *node,
            options.external_identifier_lookup@,
            options.resolve_call_expression,
        ) is None,
    decreases node,
{
    if !(is_call_expression(node) || is_type(node, "NewExpression")) {
        return None;
    }
    let callee = match node.get("callee") {
        Some(c) => c,
        None => return None,
    };
    proof {
        node.lemma_get_decreases("callee"@);
        callee.lemma_get_decreases("object"@);
    }
    if is_identifier(callee) {
        return match callee.get_str("name") {
            Some(n) => Some(to_string(n)),
            None => None,
        };
    }
    if is_member_expression(callee) {
        let member_object = match callee.get("object") {
            Some(o) => o,
            None => return None,
        };
        let last_id = dotted_exec(
            &get_member_expression_identifier(callee, &options.external_identifier_lookup),
        );
        if options.resolve_call_expression && is_call_expression(member_object) {
            let inner = get_call_expression_identifier(
                member_object,
                &GetCallExpressionIdentifierOptions::default(),
            );
            let mut id = match inner {
                Some(i) => i,
                None => {
                    let mut n = String::new();
                    push_char(&mut n, 'n');
                    push_char(&mut n, 'u');
                    push_char(&mut n, 'l');
                    push_char(&mut n, 'l');
                    n
                },
            };
            push_char(&mut id, '.');
            id.append(last_id.as_str());
            return Some(id);
        }
        return Some(last_id);
    }
    if options.resolve_call_expression {
        get_call_expression_identifier(
            callee,
            &GetCallExpressionIdentifierOptions {
                external_identifier_lookup: IdentifierLookup {
                    entries: clone_entries(&options.external_identifier_lookup),
                },
                resolve_call_expression: true,
            },
        )
    } else {
        None
    }
}

fn clone_entries(lookup: &IdentifierLookup) -> (r: Vec<(String, String)>)
    ensures
        r@ == lookup.entries@,
{
    let mut out: Vec<(String, String)> = Vec::new();
    let mut i: usize = 0;
    while i < lookup.entries.len()
        invariant
            0 <= i <= lookup.entries@.len(),
            out@ == lookup.entries@.take(i as int),
        decreases lookup.entries.len() - i,
    {
        out.push((lookup.entries[i].0.clone(), lookup.entries[i].1.clone()));
        assert(out@ =~= lookup.entries@.take(i + 1));
        i = i + 1;
    }
    assert(out@ =~= lookup.entries@);
    out
}

/// Convenience wrapper with default options.
pub fn call_expression_identifier(node: &JsonValue) -> (r: Option<String>)
    ensures
        r matches Some(s) ==> spec_call_identifier(*node, no_lookup(), true) == Some(s@),
        r is None ==> spec_call_identifier(*node, no_lookup(), true) is None,
{
    get_call_expression_identifier(node, &GetCallExpressionIdentifierOptions::default())
}

// ---------------------------------------------------------------------------
// Template literals and call arguments.
// ---------------------------------------------------------------------------

/// One template element: its raw text, followed by `${i}` unless it is the
/// tail.
pub open spec fn quasi_piece(quasi: JsonValue, i: int) -> Seq<char> {
    let raw = or_empty(spec_value_raw(quasi));
    let tail = match quasi.spec_get("tail"@) {
        Some(JsonValue::Bool(b)) => b,
        _ => false,
    };
    if tail {
        raw
    } else {
        raw + seq!['$', '{'] + decimal(i as nat) + seq!['}']
    }
}

/// A TemplateLiteral flattened into one string where
/// each interpolation is replaced by `${i}`.
pub open spec fn spec_to_literal(template_literal: JsonValue) -> Seq<char> {
    match template_literal.spec_get_array("quasis"@) {
        None => Seq::empty(),
        Some(quasis) => Seq::new(quasis.len(), |i: int| quasi_piece(quasis[i], i)).flatten(),
    }
}

pub fn to_literal(template_literal: &JsonValue) -> (r: String)
    ensures
        r@ == spec_to_literal(*template_literal),
{
    let quasis = match template_literal.get_array("quasis") {
        Some(q) => q,
        None => return String::new(),
    };
    let ghost pieces = Seq::new(quasis@.len(), |i: int| quasi_piece(quasis@[i], i));
    let mut out = String::new();
    let mut i: usize = 0;
    while i < quasis.len()
        invariant
            0 <= i <= quasis@.len(),
            pieces == Seq::new(quasis@.len(), |i: int| quasi_piece(quasis@[i], i)),
            out@ == pieces.take(i as int).flatten_alt(),
        decreases quasis.len() - i,
    {
        let quasi = &quasis[i];
        let ghost before = out@;
        match value_raw(quasi) {
            Some(raw) => out.append(raw),
            None => {},
        }
        let tail = match quasi.get("tail") {
            Some(t) => match t.as_bool() {
                Some(b) => b,
                None => false,
            },
            None => false,
        };
        if !tail {
            push_char(&mut out, '$');
            push_char(&mut out, '{');
            push_decimal(&mut out, i as u64);
            push_char(&mut out, '}');
        }
        assert(out@ =~= before + quasi_piece(quasis@[i as int], i as int));
        assert(pieces.take(i + 1).drop_last() =~= pieces.take(i as int));
        i = i + 1;
    }
    proof {
        assert(pieces.take(quasis@.len() as int) =~= pieces);
        pieces.lemma_flatten_and_flatten_alt_are_equivalent();
    }
    out
}

/// The string that one call argument gives.
pub open spec fn spec_arg_literal(arg: JsonValue, lk: LookupFn) -> Seq<Seq<char>> {
    if spec_is_type(arg, "Identifier"@) {
        opt_seq(lk(or_empty(arg.spec_get_str("name"@))))
    } else if spec_is_type(arg, "Literal"@) {
        match arg.spec_get_str("value"@) {
            Some(v) => seq![spec_hex_to_string(v)],
            None => Seq::empty(),
        }
    } else if spec_is_type(arg, "TemplateLiteral"@) {
        seq![spec_to_literal(arg)]
    } else if spec_is_type(arg, "BinaryExpression"@) {
        let c = match spec_concat_binary(arg, lk, false) {
            Some(parts) => parts.flatten(),
            None => Seq::empty(),
        };
        if c.len() > 0 {
            seq![c]
        } else {
            Seq::empty()
        }
    } else {
        Seq::empty()
    }
}

/// The strings of the arguments of a call, or `None` when the node is no
/// call, has no arguments, or none of them gives a string.
pub open spec fn spec_call_arguments(node: JsonValue, lk: LookupFn) -> Option<Seq<Seq<char>>> {
    if !spec_is_type(node, "CallExpression"@) {
        None
    } else {
        match node.spec_get_array("arguments"@) {
            None => None,
            Some(args) => {
                let literals = Seq::new(args.len(), |i: int| spec_arg_literal(args[i], lk)).flatten();
                if args.len() == 0 || literals.len() == 0 {
                    None
                } else {
                    Some(literals)
                }
            },
        }
    }
}

/// Decode `value` when it is hexadecimal, else return it unchanged.
pub fn hex_to_string(value: &str) -> (r: String)
    ensures
        r@ == spec_hex_to_string(value@),
{
    if is_hex_str(value) {
        decode_hex_lossy(value)
    } else {
        to_string(value)
    }
}

fn arg_literal(arg: &JsonValue, lookup: &IdentifierLookup) -> (r: Option<String>)
    ensures
        opt_seq(
            match r {
                Some(s) => Some(s@),
                None => None,
            },
        ) == spec_arg_literal(*arg, lookup@),
{
    if is_identifier(arg) {
        let name = match arg.get_str("name") {
            Some(n) => n,
            None => "",
        };
        proof {
            reveal_strlit("");
            assert(""@ =~= Seq::<char>::empty());
        }
        lookup.lookup(name)
    } else if is_literal(arg) {
        match arg.get_str("value") {
            Some(v) => Some(hex_to_string(v)),
            None => None,
        }
    } else if is_type(arg, "TemplateLiteral") {
        Some(to_literal(arg))
    } else if is_type(arg, "BinaryExpression") {
        let concatenated = match concat_binary_expression_parts(arg, lookup, false) {
            Some(parts) => concat(&parts),
            None => String::new(),
        };
        if concatenated.unicode_len() > 0 {
            Some(concatenated)
        } else {
            None
        }
    } else {
        None
    }
}

pub fn get_call_expression_arguments(node: &JsonValue, lookup: &IdentifierLookup) -> (r: Option<
    Vec<String>,
>)
    ensures
        r matches Some(v) ==> spec_call_arguments(*node, lookup@) == Some(view_strings(v@)),
        r is None ==> spec_call_arguments(*node, lookup@) is None,
{
    if !is_call_expression(node) {
        return None;
    }
    let args = match node.get_array("arguments") {
        Some(a) => a,
        None => return None,
    };
    let ghost parts = Seq::new(args@.len(), |i: int| spec_arg_literal(args@[i], lookup@));
    if args.len() == 0 {
        return None;
    }
    let mut literals_node: Vec<String> = Vec::new();
    let mut i: usize = 0;
    while i < args.len()
        invariant
            0 <= i <= args@.len(),
            parts == Seq::new(args@.len(), |i: int| spec_arg_literal(args@[i], lookup@)),
            view_strings(literals_node@) == parts.take(i as int).flatten_alt(),
        decreases args.len() - i,
    {
        let ghost before = view_strings(literals_node@);
        let lit = arg_literal(&args[i], lookup);
        push_opt(&mut literals_node, lit);
        assert(parts.take(i + 1).drop_last() =~= parts.take(i as int));
        i = i + 1;
    }
    proof {
        assert(parts.take(args@.len() as int) =~= parts);
        parts.lemma_flatten_and_flatten_alt_are_equivalent();
    }
    if literals_node.len() == 0 {
        None
    } else {
        Some(literals_node)
    }
}

// ---------------------------------------------------------------------------
// Logical expressions and member calls.
// ---------------------------------------------------------------------------

/// `(operator, node)` pairs as a sequence of plain values.
pub open spec fn view_leaves(v: Seq<(String, &JsonValue)>) -> Seq<(Seq<char>, JsonValue)> {
    v.map_values(|p: (String, &JsonValue)| (p.0@, *p.1))
}

/// The leaves of a tree of `LogicalExpression`s, each with the operator of
/// the expression that holds it.
pub open spec fn spec_logical_leaves(node: JsonValue) -> Seq<(Seq<char>, JsonValue)>
    decreases node,
{
    if !spec_is_type(node, "LogicalExpression"@) {
        Seq::empty()
    } else {
        proof {
            node.lemma_get_decreases("left"@);
            node.lemma_get_decreases("right"@);
        }
        let operator = or_empty(node.spec_get_str("operator"@));
        let left = match node.spec_get("left"@) {
            None => Seq::empty(),
            Some(child) => if spec_is_type(child, "LogicalExpression"@) {
                spec_logical_leaves(child)
            } else {
                seq![(operator, child)]
            },
        };
        let right = match node.spec_get("right"@) {
            None => Seq::empty(),
            Some(child) => if spec_is_type(child, "LogicalExpression"@) {
                spec_logical_leaves(child)
            } else {
                seq![(operator, child)]
            },
        };
        left + right
    }
}

/// Flatten a LogicalExpression into `(operator, node)` leaves.
pub fn extract_logical_expression(node: &JsonValue) -> (r: Vec<(String, &JsonValue)>)
    ensures
        view_leaves(r@) == spec_logical_leaves(*node),
{
    let mut out = Vec::new();
    extract_logical_inner(node, &mut out);
    assert(view_leaves(out@) =~= spec_logical_leaves(*node));
    out
}

fn extract_logical_side<'a>(c: &'a JsonValue, operator: &str, out: &mut Vec<(String, &'a JsonValue)>)
    ensures
        view_leaves(final(out)@) == view_leaves(old(out)@) + if spec_is_type(
            *c,
            "LogicalExpression"@,
        ) {
            spec_logical_leaves(*c)
        } else {
            seq![(operator@, *c)]
        },
    decreases c, 1int,
{
    if is_type(c, "LogicalExpression") {
        extract_logical_inner(c, out);
    } else {
        let ghost before = view_leaves(out@);
        out.push((to_string(operator), c));
        assert(view_leaves(out@) =~= before + seq![(operator@, *c)]);
    }
}

fn extract_logical_inner<'a>(node: &'a JsonValue, out: &mut Vec<(String, &'a JsonValue)>)
    ensures
        view_leaves(final(out)@) == view_leaves(old(out)@) + spec_logical_leaves(*node),
    decreases node, 0int,
{
    if !is_type(node, "LogicalExpression") {
        assert(view_leaves(out@) =~= view_leaves(out@) + Seq::<(Seq<char>, JsonValue)>::empty());
        return ;
    }
    proof {
        node.lemma_get_decreases("left"@);
        node.lemma_get_decreases("right"@);
    }
    let operator = match node.get_str("operator") {
        Some(o) => to_string(o),
        None => String::new(),
    };
    let ghost start = view_leaves(out@);
    if let Some(left) = node.get("left") {
        extract_logical_side(left, operator.as_str(), out);
    }
    if let Some(right) = node.get("right") {
        extract_logical_side(right, operator.as_str(), out);
    }
    assert(view_leaves(out@) =~= start + spec_logical_leaves(*node));
}

/// `node` is a call `<expr>.<method_name>(...)` with a non-computed member.
pub open spec fn spec_is_member_call(node: JsonValue, method_name: Seq<char>) -> bool {
    &&& spec_is_type(node, "CallExpression"@)
    &&& node.spec_get("callee"@) matches Some(callee)
    &&& spec_is_type(callee, "MemberExpression"@)
    &&& callee.spec_get("computed"@) != Some(JsonValue::Bool(true))
    &&& callee.spec_get("property"@) matches Some(property)
    &&& spec_is_type(property, "Identifier"@)
    &&& property.spec_get_str("name"@) == Some(method_name)
}

/// Return the node when it is a `<expr>.<methodName>(...)` call.
pub fn get_member_call_expression<'a>(node: &'a JsonValue, method_name: &str) -> (r: Option<
    &'a JsonValue,
>)
    ensures
        r matches Some(n) ==> *n == *node,
        r is Some <==> spec_is_member_call(*node, method_name@),
{
    if is_call_expression(node) {
        let callee = match node.get("callee") {
            Some(c) => c,
            None => return None,
        };
        let computed = match callee.get("computed") {
            Some(c) => c.as_bool() == Some(true),
            None => false,
        };
        if is_member_expression(callee) && !computed {
            let property = match callee.get("property") {
                Some(p) => p,
                None => return None,
            };
            if is_identifier(property) {
                match property.get_str("name") {
                    Some(name) => if str_eq(name, method_name) {
                        return Some(node);
                    },
                    None => {},
                }
            }
        }
    }
    None
}

// ---------------------------------------------------------------------------
// Declared names.
// ---------------------------------------------------------------------------

/// `prefix.name`, or `name` without a prefix.
pub open spec fn spec_auto_prefix(name: Seq<char>, prefix: Option<Seq<char>>) -> Seq<char> {
    match prefix {
        Some(p) => p + seq!['.'] + name,
        None => name,
    }
}

fn auto_prefix(name: &str, prefix: Option<&str>) -> (r: String)
    ensures
        r@ == spec_auto_prefix(
            name@,
            match prefix {
                Some(p) => Some(p@),
                None => None,
            },
        ),
{
    match prefix {
        Some(prefix) => {
            let mut r = to_string(prefix);
            push_char(&mut r, '.');
            r.append(name);
            r
        },
        None => to_string(name),
    }
}

/// The names that a declaration, pattern or assignment binds, each with the
/// node that holds it.
pub open spec fn spec_var_ids(node: JsonValue, prefix: Option<Seq<char>>) -> Seq<
    (Seq<char>, JsonValue),
>
    decreases node,
{
    proof {
        node.lemma_get_decreases("id"@);
        node.lemma_get_decreases("init"@);
        node.lemma_get_decreases("value"@);
        node.lemma_get_decreases("argument"@);
        node.lemma_get_decreases("left"@);
        node.lemma_get_array_decreases("declarations"@);
        node.lemma_get_array_decreases("properties"@);
        node.lemma_get_array_decreases("expressions"@);
        node.lemma_get_array_decreases("elements"@);
    }
    if spec_is_type(node, "VariableDeclaration"@) {
        match node.spec_get_array("declarations"@) {
            Some(items) => spec_var_ids_seq(items, prefix),
            None => Seq::empty(),
        }
    } else if spec_is_type(node, "VariableDeclarator"@) {
        let a = match node.spec_get("id"@) {
            Some(id) => spec_var_ids(id, prefix),
            None => Seq::empty(),
        };
        let b = match node.spec_get("init"@) {
            Some(init) => if init is Null {
                Seq::empty()
            } else {
                spec_var_ids(init, prefix)
            },
            None => Seq::empty(),
        };
        a + b
    } else if spec_is_type(node, "Identifier"@) {
        seq![(spec_auto_prefix(or_empty(node.spec_get_str("name"@)), prefix), node)]
    } else if spec_is_type(node, "Property"@) {
        match node.spec_get("key"@) {
            Some(key) => if node.spec_get_str("kind"@) != Some("init"@) || !spec_is_type(
                key,
                "Identifier"@,
            ) {
                Seq::empty()
            } else {
                let name = spec_auto_prefix(or_empty(key.spec_get_str("name"@)), prefix);
                match node.spec_get("value"@) {
                    Some(value) => if spec_is_type(value, "ObjectPattern"@) || spec_is_type(
                        value,
                        "ArrayPattern"@,
                    ) {
                        spec_var_ids(value, Some(name))
                    } else if spec_is_type(value, "Identifier"@) {
                        seq![(name, value)]
                    } else if spec_is_type(value, "AssignmentPattern"@) && (value.spec_get(
                        "left"@,
                    ) matches Some(left) && spec_is_type(left, "Identifier"@)) {
                        seq![(name, value.spec_get("left"@).unwrap())]
                    } else {
                        seq![(name, key)]
                    },
                    None => seq![(name, key)],
                }
            },
            None => Seq::empty(),
        }
    } else if spec_is_type(node, "RestElement"@) {
        match node.spec_get("argument"@) {
            Some(argument) => if spec_is_type(argument, "Identifier"@) {
                seq![
                    (spec_auto_prefix(or_empty(argument.spec_get_str("name"@)), prefix), argument),
                ]
            } else {
                Seq::empty()
            },
            None => Seq::empty(),
        }
    } else if spec_is_type(node, "ObjectExpression"@) || spec_is_type(node, "ObjectPattern"@) {
        match node.spec_get_array("properties"@) {
            Some(items) => spec_var_ids_seq(items, prefix),
            None => Seq::empty(),
        }
    } else if spec_is_type(node, "SequenceExpression"@) {
        match node.spec_get_array("expressions"@) {
            Some(items) => spec_var_ids_seq(items, prefix),
            None => Seq::empty(),
        }
    } else if spec_is_type(node, "AssignmentExpression"@) {
        match node.spec_get("left"@) {
            Some(left) => spec_var_ids(left, prefix),
            None => Seq::empty(),
        }
    } else if spec_is_type(node, "AssignmentPattern"@) {
        match node.spec_get("left"@) {
            Some(left) => if spec_is_type(left, "Identifier"@) {
                seq![(or_empty(left.spec_get_str("name"@)), left)]
            } else {
                spec_var_ids(left, prefix)
            },
            None => Seq::empty(),
        }
    } else if spec_is_type(node, "ArrayPattern"@) {
        match node.spec_get_array("elements"@) {
            Some(items) => spec_var_ids_seq(items, prefix),
            None => Seq::empty(),
        }
    } else {
        Seq::empty()
    }
}

/// The names bound by each node of `items`, in order.
pub open spec fn spec_var_ids_seq(items: Seq<JsonValue>, prefix: Option<Seq<char>>) -> Seq<
    (Seq<char>, JsonValue),
>
    decreases items,
{
    if items.len() == 0 {
        Seq::empty()
    } else {
        proof {
            assert(decreases_to!(items => items[0]));
            assert(decreases_to!(items => items.subrange(1, items.len() as int)));
        }
        spec_var_ids(items[0], prefix) + spec_var_ids_seq(
            items.subrange(1, items.len() as int),
            prefix,
        )
    }
}

/// Yields `(name, assignmentId)` pairs; `assignmentId` is the node that
/// holds the name.
pub fn get_variable_declaration_identifiers<'a>(
    node: &'a JsonValue,
    prefix: Option<&str>,
) -> (r: Vec<(String, &'a JsonValue)>)
    ensures
        view_leaves(r@) == spec_var_ids(
            *node,
            match prefix {
                Some(p) => Some(p@),
                None => None,
            },
        ),
{
    let mut out = Vec::new();
    collect_variable_declaration_identifiers(node, prefix, &mut out);
    assert(view_leaves(out@) =~= spec_var_ids(
        *node,
        match prefix {
            Some(p) => Some(p@),
            None => None,
        },
    ));
    out
}

fn push_leaf<'a>(out: &mut Vec<(String, &'a JsonValue)>, name: String, node: &'a JsonValue)
    ensures
        view_leaves(final(out)@) == view_leaves(old(out)@) + seq![(name@, *node)],
{
    let ghost before = view_leaves(out@);
    out.push((name, node));
    assert(view_leaves(out@) =~= before + seq![(name@, *node)]);
}

fn collect_seq<'a>(
    items: &'a Vec<JsonValue>,
    prefix: Option<&str>,
    out: &mut Vec<(String, &'a JsonValue)>,
)
    ensures
        view_leaves(final(out)@) == view_leaves(old(out)@) + spec_var_ids_seq(
            items@,
            match prefix {
                Some(p) => Some(p@),
                None => None,
            },
        ),
    decreases items@, 0int,
{
    let ghost p = match prefix {
        Some(p) => Some(p@),
        None => None,
    };
    let ghost start = view_leaves(out@);
    let mut i: usize = 0;
    assert(items@.subrange(0, items@.len() as int) =~= items@);
    while i < items.len()
        invariant
            0 <= i <= items@.len(),
            p == match prefix {
                Some(p) => Some(p@),
                None => None,
            },
            start + spec_var_ids_seq(items@, p) == view_leaves(out@) + spec_var_ids_seq(
                items@.subrange(i as int, items@.len() as int),
                p,
            ),
        decreases items.len() - i,
    {
        let ghost rest = items@.subrange(i as int, items@.len() as int);
        let ghost before = view_leaves(out@);
        assert(rest[0] == items@[i as int]);
        assert(rest.subrange(1, rest.len() as int) =~= items@.subrange(i + 1, items@.len() as int));
        proof {
            assert(decreases_to!(items@ => items@[i as int]));
        }
        collect_variable_declaration_identifiers(&items[i], prefix, out);
        assert(view_leaves(out@) + spec_var_ids_seq(items@.subrange(i + 1, items@.len() as int), p)
            =~= before + spec_var_ids_seq(rest, p));
        i = i + 1;
    }
    assert(view_leaves(out@) =~= view_leaves(out@) + spec_var_ids_seq(
        items@.subrange(i as int, items@.len() as int),
        p,
    ));
}

fn collect_variable_declaration_identifiers<'a>(
    node: &'a JsonValue,
    prefix: Option<&str>,
    out: &mut Vec<(String, &'a JsonValue)>,
)
    ensures
        view_leaves(final(out)@) == view_leaves(old(out)@) + spec_var_ids(
            *node,
            match prefix {
                Some(p) => Some(p@),
                None => None,
            },
        ),
    decreases node, 1int,
{
    let ghost p = match prefix {
        Some(p) => Some(p@),
        None => None,
    };
    let ghost start = view_leaves(out@);
    proof {
        node.lemma_get_decreases("id"@);
        node.lemma_get_decreases("init"@);
        node.lemma_get_decreases("value"@);
        node.lemma_get_decreases("argument"@);
        node.lemma_get_decreases("left"@);
        node.lemma_get_array_decreases("declarations"@);
        node.lemma_get_array_decreases("properties"@);
        node.lemma_get_array_decreases("expressions"@);
        node.lemma_get_array_decreases("elements"@);
        reveal_strlit("");
        assert(""@ =~= Seq::<char>::empty());
    }
    if is_type(node, "VariableDeclaration") {
        if let Some(items) = node.get_array("declarations") {
            collect_seq(items, prefix, out);
        }
    } else if is_type(node, "VariableDeclarator") {
        if let Some(id) = node.get("id") {
            collect_variable_declaration_identifiers(id, prefix, out);
        }
        let ghost mid = view_leaves(out@);
        if let Some(init) = node.get("init") {
            if !init.is_null() {
                collect_variable_declaration_identifiers(init, prefix, out);
            }
        }
    } else if is_identifier(node) {
        let name = match node.get_str("name") {
            Some(n) => n,
            None => "",
        };
        push_leaf(out, auto_prefix(name, prefix), node);
    } else if is_type(node, "Property") {
        let key = match node.get("key") {
            Some(k) => k,
            None => {
                assert(view_leaves(out@) =~= start + spec_var_ids(*node, p));
                return ;
            },
        };
        let is_init = match node.get_str("kind") {
            Some(kind) => str_eq(kind, "init"),
            None => false,
        };
        if !is_init || !is_identifier(key) {
            assert(view_leaves(out@) =~= start + spec_var_ids(*node, p));
            return ;
        }
        let key_name = match key.get_str("name") {
            Some(n) => n,
            None => "",
        };
        let name = auto_prefix(key_name, prefix);
        match node.get("value") {
            Some(value) => {
                if is_type(value, "ObjectPattern") || is_type(value, "ArrayPattern") {
                    collect_variable_declaration_identifiers(value, Some(name.as_str()), out);
                } else if is_identifier(value) {
                    push_leaf(out, name, value);
                } else {
                    let left_id = if is_type(value, "AssignmentPattern") {
                        match value.get("left") {
                            Some(left) => if is_identifier(left) {
                                Some(left)
                            } else {
                                None
                            },
                            None => None,
                        }
                    } else {
                        None
                    };
                    match left_id {
                        Some(left) => push_leaf(out, name, left),
                        None => push_leaf(out, name, key),
                    }
                }
            },
            None => push_leaf(out, name, key),
        }
    } else if is_type(node, "RestElement") {
        if let Some(argument) = node.get("argument") {
            if is_identifier(argument) {
                let name = match argument.get_str("name") {
                    Some(n) => n,
                    None => "",
                };
                push_leaf(out, auto_prefix(name, prefix), argument);
            }
        }
    } else if is_type(node, "ObjectExpression") || is_type(node, "ObjectPattern") {
        if let Some(items) = node.get_array("properties") {
            collect_seq(items, prefix, out);
        }
    } else if is_type(node, "SequenceExpression") {
        if let Some(items) = node.get_array("expressions") {
            collect_seq(items, prefix, out);
        }
    } else if is_type(node, "AssignmentExpression") {
        if let Some(left) = node.get("left") {
            collect_variable_declaration_identifiers(left, prefix, out);
        }
    } else if is_type(node, "AssignmentPattern") {
        if let Some(left) = node.get("left") {
            if is_identifier(left) {
                let name = match left.get_str("name") {
                    Some(n) => n,
                    None => "",
                };
                push_leaf(out, to_string(name), left);
            } else {
                collect_variable_declaration_identifiers(left, prefix, out);
            }
        }
    } else if is_type(node, "ArrayPattern") {
        if let Some(items) = node.get_array("elements") {
            collect_seq(items, prefix, out);
        }
    }
    assert(view_leaves(out@) =~= start + spec_var_ids(*node, p));
}

/// The names that function parameters bind.
pub open spec fn spec_param_names(params: Seq<JsonValue>) -> Seq<Seq<char>> {
    Seq::new(
        params.len(),
        |i: int|
            {
                let ids = spec_var_ids(params[i], None);
                Seq::new(ids.len(), |j: int| opt_seq(ids[j].1.spec_get_str("name"@))).flatten()
            },
    ).flatten()
}

pub fn get_param_names(params: &[JsonValue]) -> (r: Vec<String>)
    ensures
        view_strings(r@) == spec_param_names(params@),
{
    let ghost groups = Seq::new(
        params@.len(),
        |i: int|
            {
                let ids = spec_var_ids(params@[i], None);
                Seq::new(ids.len(), |j: int| opt_seq(ids[j].1.spec_get_str("name"@))).flatten()
            },
    );
    let mut names: Vec<String> = Vec::new();
    let mut i: usize = 0;
    while i < params.len()
        invariant
            0 <= i <= params@.len(),
            groups == Seq::new(
                params@.len(),
                |i: int|
                    {
                        let ids = spec_var_ids(params@[i], None);
                        Seq::new(ids.len(), |j: int| opt_seq(ids[j].1.spec_get_str("name"@))).flatten()
                    },
            ),
            view_strings(names@) == groups.take(i as int).flatten_alt(),
        decreases params.len() - i,
    {
        let ghost before = view_strings(names@);
        let ids = get_variable_declaration_identifiers(&params[i], None);
        let ghost sids = spec_var_ids(params@[i as int], None);
        let ghost pieces = Seq::new(sids.len(), |j: int| opt_seq(sids[j].1.spec_get_str("name"@)));
        let mut j: usize = 0;
        while j < ids.len()
            invariant
                0 <= j <= ids@.len(),
                view_leaves(ids@) == sids,
                pieces == Seq::new(sids.len(), |j: int| opt_seq(sids[j].1.spec_get_str("name"@))),
                view_strings(names@) == before + pieces.take(j as int).flatten_alt(),
            decreases ids.len() - j,
        {
            assert(sids[j as int].1 == *ids@[j as int].1);
            let name = ids[j].1.get_str("name");
            push_str_opt(&mut names, name);
            assert(pieces.take(j + 1).drop_last() =~= pieces.take(j as int));
            assert(view_strings(names@) =~= before + pieces.take(j + 1).flatten_alt());
            j = j + 1;
        }
        proof {
            assert(pieces.take(ids@.len() as int) =~= pieces);
            pieces.lemma_flatten_and_flatten_alt_are_equivalent();
            assert(groups[i as int] == pieces.flatten());
            assert(groups.take(i + 1).drop_last() =~= groups.take(i as int));
        }
        i = i + 1;
    }
    proof {
        assert(groups.take(params@.len() as int) =~= groups);
        groups.lemma_flatten_and_flatten_alt_are_equivalent();
    }
    names
}

} // verus!
