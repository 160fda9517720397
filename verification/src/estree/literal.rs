//! ECMAScript string coercion of literal values.

use vstd::prelude::*;

use crate::json::JsonValue;
use crate::text::{push_char, to_string};

verus! {

/// A lowercase hexadecimal digit.
pub open spec fn hex_digit_lower(d: int) -> char {
    if d < 10 {
        (d + '0' as int) as char
    } else {
        (d - 10 + 'a' as int) as char
    }
}

/// How JSON text writes one character inside a string.
pub open spec fn escape_char(c: char) -> Seq<char> {
    if c == '"' {
        seq!['\\', '"']
    } else if c == '\\' {
        seq!['\\', '\\']
    } else if c == '\n' {
        seq!['\\', 'n']
    } else if c == '\r' {
        seq!['\\', 'r']
    } else if c == '\t' {
        seq!['\\', 't']
    } else if c == '\u{8}' {
        seq!['\\', 'b']
    } else if c == '\u{c}' {
        seq!['\\', 'f']
    } else if (c as int) < 0x20 {
        seq!['\\', 'u', '0', '0', hex_digit_lower(c as int / 16), hex_digit_lower(c as int % 16)]
    } else {
        seq![c]
    }
}

/// A string as JSON text writes it, quotes included.
pub open spec fn quoted(s: Seq<char>) -> Seq<char> {
    seq!['"'] + s.map_values(|c: char| escape_char(c)).flatten() + seq!['"']
}

/// Compact JSON text of a value.
pub open spec fn json_text(v: JsonValue) -> Seq<char>
    decreases v,
{
    match v {
        JsonValue::Null => "null"@,
        JsonValue::Bool(b) => if b {
            "true"@
        } else {
            "false"@
        },
        JsonValue::Number(n) => n.json_text@,
        JsonValue::String(s, _) => quoted(s@),
        JsonValue::Array(items) => {
            proof {
                assert(decreases_to!(v => items));
                assert(decreases_to!(items => items@));
            }
            seq!['['] + items_text(items@) + seq![']']
        },
        JsonValue::Object(fields) => {
            proof {
                assert(decreases_to!(v => fields));
                assert(decreases_to!(fields => fields@));
            }
            seq!['{'] + fields_text(fields@) + seq!['}']
        },
    }
}

/// The JSON text of array elements, separated by commas.
pub open spec fn items_text(items: Seq<JsonValue>) -> Seq<char>
    decreases items,
{
    if items.len() == 0 {
        Seq::empty()
    } else {
        proof {
            assert(decreases_to!(items => items[items.len() - 1]));
            assert(decreases_to!(items => items.subrange(0, items.len() - 1)));
        }
        let last = json_text(items[items.len() - 1]);
        if items.len() == 1 {
            last
        } else {
            items_text(items.subrange(0, items.len() - 1)) + seq![','] + last
        }
    }
}

/// The JSON text of object fields, separated by commas.
pub open spec fn fields_text(fields: Seq<(String, JsonValue)>) -> Seq<char>
    decreases fields,
{
    if fields.len() == 0 {
        Seq::empty()
    } else {
        proof {
            assert(decreases_to!(fields => fields[fields.len() - 1]));
            assert(decreases_to!(fields[fields.len() - 1] => fields[fields.len() - 1].1));
            assert(decreases_to!(fields => fields.subrange(0, fields.len() - 1)));
        }
        let f = fields[fields.len() - 1];
        let last = quoted(f.0@) + seq![':'] + json_text(f.1);
        if fields.len() == 1 {
            last
        } else {
            fields_text(fields.subrange(0, fields.len() - 1)) + seq![','] + last
        }
    }
}

fn hex_digit_lower_exec(d: u32) -> (c: char)
    requires
        d < 16,
    ensures
        c == hex_digit_lower(d as int),
{
    let digits = ['0', '1', '2', '3', '4', '5', '6', '7', '8', '9', 'a', 'b', 'c', 'd', 'e', 'f'];
    let c = digits[d as usize];
    proof {
        assert(('0' as int) == 48);
        assert(('a' as int) == 97);
    }
    assert(c == hex_digit_lower(d as int)) by {
        if d == 0 {} else if d == 1 {} else if d == 2 {} else if d == 3 {} else if d == 4 {}
        else if d == 5 {} else if d == 6 {} else if d == 7 {} else if d == 8 {} else if d == 9 {}
        else if d == 10 {} else if d == 11 {} else if d == 12 {} else if d == 13 {}
        else if d == 14 {} else {}
    }
    c
}

fn push_escaped(out: &mut String, c: char)
    ensures
        final(out)@ == old(out)@ + escape_char(c),
{
    let ghost start = out@;
    if c == '"' {
        push_char(out, '\\');
        push_char(out, '"');
    } else if c == '\\' {
        push_char(out, '\\');
        push_char(out, '\\');
    } else if c == '\n' {
        push_char(out, '\\');
        push_char(out, 'n');
    } else if c == '\r' {
        push_char(out, '\\');
        push_char(out, 'r');
    } else if c == '\t' {
        push_char(out, '\\');
        push_char(out, 't');
    } else if c == '\u{8}' {
        push_char(out, '\\');
        push_char(out, 'b');
    } else if c == '\u{c}' {
        push_char(out, '\\');
        push_char(out, 'f');
    } else if (c as u32) < 0x20 {
        push_char(out, '\\');
        push_char(out, 'u');
        push_char(out, '0');
        push_char(out, '0');
        push_char(out, hex_digit_lower_exec((c as u32) / 16));
        push_char(out, hex_digit_lower_exec((c as u32) % 16));
    } else {
        push_char(out, c);
    }
    assert(out@ =~= start + escape_char(c));
}

fn push_quoted(out: &mut String, s: &str)
    ensures
        final(out)@ == old(out)@ + quoted(s@),
{
    let ghost start = out@;
    let ghost esc = s@.map_values(|c: char| escape_char(c));
    push_char(out, '"');
    for c in it: s.chars()
        invariant
            it.seq() == s@,
            esc == s@.map_values(|c: char| escape_char(c)),
            out@ == start + seq!['"'] + esc.take(it.index() as int).flatten_alt(),
    {
        let ghost before = out@;
        push_escaped(out, c);
        proof {
            let k = it.index() as int;
            assert(esc.take(k + 1).drop_last() =~= esc.take(k));
            assert(esc.take(k + 1).last() == escape_char(c));
            assert(out@ =~= start + seq!['"'] + esc.take(k + 1).flatten_alt());
        }
    }
    proof {
        assert(esc.take(s@.len() as int) =~= esc);
        esc.lemma_flatten_and_flatten_alt_are_equivalent();
    }
    push_char(out, '"');
    assert(out@ =~= start + quoted(s@));
}

/// Appends the compact JSON text of `v`.
pub fn write_json(out: &mut String, v: &JsonValue)
    ensures
        final(out)@ == old(out)@ + json_text(*v),
    decreases v,
{
    let ghost start = out@;
    match v {
        JsonValue::Null => {
            out.append("null");
            proof { reveal_strlit("null"); }
        },
        JsonValue::Bool(b) => if *b {
            out.append("true");
            proof { reveal_strlit("true"); }
        } else {
            out.append("false");
            proof { reveal_strlit("false"); }
        },
        JsonValue::Number(n) => out.append(n.json_text.as_str()),
        JsonValue::String(s, _) => push_quoted(out, s.as_str()),
        JsonValue::Array(items) => {
            push_char(out, '[');
            let mut i: usize = 0;
            while i < items.len()
                invariant
                    0 <= i <= items@.len(),
                    *v == JsonValue::Array(*items),
                    out@ == start + seq!['['] + items_text(items@.subrange(0, i as int)),
                decreases items.len() - i,
            {
                if i > 0 {
                    push_char(out, ',');
                }
                proof {
                    assert(decreases_to!(*v => (*v)->Array_0));
                    assert(decreases_to!(items => items@[i as int]));
                }
                write_json(out, &items[i]);
                proof {
                    let sub = items@.subrange(0, i + 1);
                    assert(sub.subrange(0, i as int) =~= items@.subrange(0, i as int));
                    assert(sub[i as int] == items@[i as int]);
                    assert(out@ =~= start + seq!['['] + items_text(sub));
                }
                i = i + 1;
            }
            push_char(out, ']');
            assert(items@.subrange(0, items@.len() as int) =~= items@);
            assert(out@ =~= start + json_text(*v));
        },
        JsonValue::Object(fields) => {
            push_char(out, '{');
            let mut i: usize = 0;
            while i < fields.len()
                invariant
                    0 <= i <= fields@.len(),
                    *v == JsonValue::Object(*fields),
                    out@ == start + seq!['{'] + fields_text(fields@.subrange(0, i as int)),
                decreases fields.len() - i,
            {
                if i > 0 {
                    push_char(out, ',');
                }
                push_quoted(out, fields[i].0.as_str());
                push_char(out, ':');
                proof {
                    assert(decreases_to!(*v => (*v)->Object_0));
                    assert(decreases_to!(fields => fields@[i as int]));
                    assert(decreases_to!(fields@[i as int] => fields@[i as int].1));
                }
                write_json(out, &fields[i].1);
                proof {
                    let sub = fields@.subrange(0, i + 1);
                    assert(sub.subrange(0, i as int) =~= fields@.subrange(0, i as int));
                    assert(sub[i as int] == fields@[i as int]);
                    assert(out@ =~= start + seq!['{'] + fields_text(sub));
                }
                i = i + 1;
            }
            push_char(out, '}');
            assert(fields@.subrange(0, fields@.len() as int) =~= fields@);
            assert(out@ =~= start + json_text(*v));
        },
    }
}

/// ECMAScript `String(value)` of a JSON value; arrays and objects give
/// their JSON text.
pub open spec fn spec_js_string(v: JsonValue) -> Seq<char> {
    match v {
        JsonValue::Null => "null"@,
        JsonValue::Bool(b) => if b {
            "true"@
        } else {
            "false"@
        },
        JsonValue::Number(n) => n.js_text@,
        JsonValue::String(s, _) => s@,
        _ => json_text(v),
    }
}

/// JavaScript `String(value)` coercion for JSON values.
pub fn js_string(value: &JsonValue) -> (r: String)
    ensures
        r@ == spec_js_string(*value),
{
    match value {
        JsonValue::Null => to_string("null"),
        JsonValue::Bool(b) => if *b {
            to_string("true")
        } else {
            to_string("false")
        },
        JsonValue::Number(n) => to_string(n.js_text.as_str()),
        JsonValue::String(s, _) => to_string(s.as_str()),
        _ => {
            let mut out = String::new();
            write_json(&mut out, value);
            assert(out@ =~= json_text(*value));
            out
        },
    }
}

/// A string, or a node whose `value` field is read.
pub open spec fn spec_to_value(v: JsonValue) -> Seq<char> {
    match v {
        JsonValue::String(s, _) => s@,
        _ => match v.spec_get("value"@) {
            Some(value) => spec_js_string(value),
            None => "null"@,
        },
    }
}

/// Accepts a string or a Literal node and returns the
/// literal value coerced to a string.
pub fn to_value(str_or_literal: &JsonValue) -> (r: String)
    ensures
        r@ == spec_to_value(*str_or_literal),
{
    match str_or_literal {
        JsonValue::String(s, _) => to_string(s.as_str()),
        node => match node.get("value") {
            Some(value) => js_string(value),
            None => to_string("null"),
        },
    }
}

/// The `raw` source text of a Literal (or the string itself).
pub fn to_raw(str_or_literal: &JsonValue) -> (r: Option<String>)
    ensures
        r matches Some(s) ==> Some(s@) == match *str_or_literal {
            JsonValue::String(t, _) => Some(t@),
            _ => str_or_literal.spec_get_str("raw"@),
        },
        r is None ==> !(*str_or_literal is String) && str_or_literal.spec_get_str("raw"@) is None,
{
    match str_or_literal {
        JsonValue::String(s, _) => Some(to_string(s.as_str())),
        node => match node.get_str("raw") {
            Some(raw) => Some(to_string(raw)),
            None => None,
        },
    }
}

} // verus!
