//! A JSON value: the shape in which ESTree trees reach the analysis.

use vstd::prelude::*;

use crate::text::str_eq;

verus! {

/// A JSON number, held as the plain values that the analysis reads from it.
pub struct JsonNumber {
    /// ECMAScript `String(n)` of the number.
    pub js_text: String,
    /// The number as JSON text renders it.
    pub json_text: String,
    /// The number truncated toward zero and clamped to the `i64` range
    /// (0 for NaN), as a float-to-integer cast computes it.
    pub truncated: i64,
    /// The number as an unsigned integer, when it is one that fits in `u64`.
    pub as_u64: Option<u64>,
}

/// A JSON value. Object fields keep their order; a key is looked up at its
/// first occurrence.
pub enum JsonValue {
    Null,
    Bool(bool),
    Number(JsonNumber),
    /// A string, with `Number(trimmed text)` as a float-to-integer cast
    /// truncates it, when the trimmed text parses as a float.
    String(String, Option<i64>),
    Array(Vec<JsonValue>),
    Object(Vec<(String, JsonValue)>),
}

/// Index of the first field named `key`.
pub open spec fn field_index(fields: Seq<(String, JsonValue)>, key: Seq<char>) -> Option<int>
    decreases fields.len(),
{
    if fields.len() == 0 {
        None
    } else if fields[0].0@ == key {
        Some(0)
    } else {
        match field_index(fields.drop_first(), key) {
            Some(i) => Some(i + 1),
            None => None,
        }
    }
}

pub proof fn lemma_field_index_bounds(fields: Seq<(String, JsonValue)>, key: Seq<char>)
    ensures
        field_index(fields, key) matches Some(i) ==> 0 <= i < fields.len() && fields[i].0@ == key
            && forall|j: int| 0 <= j < i ==> fields[j].0@ != key,
        field_index(fields, key) is None ==> forall|j: int|
            0 <= j < fields.len() ==> fields[j].0@ != key,
    decreases fields.len(),
{
    if fields.len() > 0 {
        lemma_field_index_bounds(fields.drop_first(), key);
        if fields[0].0@ != key {
            assert forall|j: int| 1 <= j < fields.len() implies fields[j] == fields.drop_first()[j
                - 1] by {}
        }
    }
}

/// The value of the first field named `key`.
pub open spec fn field_value(fields: Seq<(String, JsonValue)>, key: Seq<char>) -> Option<JsonValue> {
    match field_index(fields, key) {
        Some(i) => Some(fields[i].1),
        None => None,
    }
}

/// Two field lists with the same keys in the same order find a key at the
/// same index.
pub proof fn lemma_field_index_same_keys(
    f: Seq<(String, JsonValue)>,
    g: Seq<(String, JsonValue)>,
    key: Seq<char>,
)
    requires
        f.len() <= g.len(),
        forall|i: int| 0 <= i < f.len() ==> #[trigger] g[i].0@ == f[i].0@,
        forall|i: int| f.len() <= i < g.len() ==> #[trigger] g[i].0@ != key,
    ensures
        field_index(g, key) == field_index(f, key),
    decreases g.len(),
{
    if f.len() == 0 {
        if g.len() > 0 {
            assert(g[0].0@ != key);
            lemma_field_index_same_keys(f, g.drop_first(), key);
            assert(field_index(g.drop_first(), key) is None);
        }
    } else {
        assert(g[0].0@ == f[0].0@);
        lemma_field_index_same_keys(f.drop_first(), g.drop_first(), key);
    }
}

/// A key found at `i` and at no earlier field has index `i`.
pub proof fn lemma_field_index_at(fields: Seq<(String, JsonValue)>, key: Seq<char>, i: int)
    requires
        0 <= i < fields.len(),
        fields[i].0@ == key,
        forall|j: int| 0 <= j < i ==> #[trigger] fields[j].0@ != key,
    ensures
        field_index(fields, key) == Some(i),
    decreases i,
{
    if i > 0 {
        assert(fields[0].0@ != key);
        assert forall|j: int| 0 <= j < i - 1 implies #[trigger] fields.drop_first()[j].0@ != key by {
            assert(fields.drop_first()[j] == fields[j + 1]);
        }
        lemma_field_index_at(fields.drop_first(), key, i - 1);
    }
}

/// The index of the first field named `key`.
pub fn find_field(fields: &Vec<(String, JsonValue)>, key: &str) -> (r: Option<usize>)
    ensures
        match r {
            Some(i) => field_index(fields@, key@) == Some(i as int),
            None => field_index(fields@, key@) is None,
        },
{
    let mut i: usize = 0;
    while i < fields.len()
        invariant
            0 <= i <= fields@.len(),
            forall|j: int| 0 <= j < i ==> fields@[j].0@ != key@,
        decreases fields.len() - i,
    {
        if str_eq(fields[i].0.as_str(), key) {
            proof {
                lemma_field_index_bounds(fields@, key@);
                if let Some(k) = field_index(fields@, key@) {
                    if k > i {
                        assert(fields@[i as int].0@ != key@);
                    }
                }
            }
            return Some(i);
        }
        i = i + 1;
    }
    proof { lemma_field_index_bounds(fields@, key@); }
    None
}

/// The value of the first field named `key`.
pub fn field_of<'a>(fields: &'a Vec<(String, JsonValue)>, key: &str) -> (r: Option<&'a JsonValue>)
    ensures
        match r {
            Some(v) => field_value(fields@, key@) == Some(*v),
            None => field_value(fields@, key@) is None,
        },
{
    match find_field(fields, key) {
        Some(i) => {
            proof { lemma_field_index_bounds(fields@, key@); }
            Some(&fields[i].1)
        },
        None => None,
    }
}

impl JsonValue {
    /// The value of field `key` of an object.
    pub open spec fn spec_get(self, key: Seq<char>) -> Option<JsonValue> {
        match self {
            JsonValue::Object(fields) => match field_index(fields@, key) {
                Some(i) => Some(fields@[i].1),
                None => None,
            },
            _ => None,
        }
    }

    pub proof fn lemma_get_decreases(self, key: Seq<char>)
        ensures
            self.spec_get(key) matches Some(c) ==> decreases_to!(self => c),
    {
        if let JsonValue::Object(fields) = self {
            lemma_field_index_bounds(fields@, key);
            if let Some(i) = field_index(fields@, key) {
                assert(decreases_to!(self => fields));
                assert(decreases_to!(fields => fields@[i]));
                assert(decreases_to!(fields@[i] => fields@[i].1));
            }
        }
    }

    pub fn get(&self, key: &str) -> (r: Option<&JsonValue>)
        ensures
            r matches Some(c) ==> self.spec_get(key@) == Some(*c),
            r is None ==> self.spec_get(key@) is None,
    {
        match self {
            JsonValue::Object(fields) => {
                let mut i: usize = 0;
                while i < fields.len()
                    invariant
                        0 <= i <= fields@.len(),
                        *self == JsonValue::Object(*fields),
                        forall|j: int| 0 <= j < i ==> fields@[j].0@ != key@,
                    decreases fields.len() - i,
                {
                    if str_eq(fields[i].0.as_str(), key) {
                        proof {
                            lemma_field_index_bounds(fields@, key@);
                            if let Some(k) = field_index(fields@, key@) {
                                if k > i {
                                    assert(fields@[i as int].0@ != key@);
                                }
                            }
                        }
                        assert(fields@[i as int].0@ == key@);
                        assert(field_index(fields@, key@) == Some(i as int));
                        assert(*self == JsonValue::Object(*fields));
                        assert(self.spec_get(key@) == Some(fields@[i as int].1));
                        return Some(&fields[i].1);
                    }
                    i = i + 1;
                }
                proof { lemma_field_index_bounds(fields@, key@); }
                None
            },
            _ => None,
        }
    }
}


impl JsonValue {
    pub open spec fn spec_as_str(self) -> Option<Seq<char>> {
        match self {
            JsonValue::String(s, _) => Some(s@),
            _ => None,
        }
    }

    pub open spec fn spec_as_array(self) -> Option<Seq<JsonValue>> {
        match self {
            JsonValue::Array(items) => Some(items@),
            _ => None,
        }
    }

    pub open spec fn spec_as_bool(self) -> Option<bool> {
        match self {
            JsonValue::Bool(b) => Some(b),
            _ => None,
        }
    }

    /// Element `i` of an array (`Value::get` with an index).
    pub open spec fn spec_at(self, i: int) -> Option<JsonValue> {
        match self {
            JsonValue::Array(items) => if 0 <= i < items@.len() {
                Some(items@[i])
            } else {
                None
            },
            _ => None,
        }
    }

    /// The string held at field `key`.
    pub open spec fn spec_get_str(self, key: Seq<char>) -> Option<Seq<char>> {
        match self.spec_get(key) {
            Some(v) => v.spec_as_str(),
            None => None,
        }
    }

    /// The array held at field `key`.
    pub open spec fn spec_get_array(self, key: Seq<char>) -> Option<Seq<JsonValue>> {
        match self.spec_get(key) {
            Some(v) => v.spec_as_array(),
            None => None,
        }
    }

    pub proof fn lemma_at_decreases(self, i: int)
        ensures
            self.spec_at(i) matches Some(c) ==> decreases_to!(self => c),
    {
        if let JsonValue::Array(items) = self {
            if 0 <= i < items@.len() {
                assert(decreases_to!(self => items));
                assert(decreases_to!(items => items@[i]));
            }
        }
    }

    pub proof fn lemma_get_array_decreases(self, key: Seq<char>)
        ensures
            self.spec_get_array(key) matches Some(items) ==> decreases_to!(self => items),
    {
        self.lemma_get_decreases(key);
        if let Some(JsonValue::Array(items)) = self.spec_get(key) {
            let v = self.spec_get(key).unwrap();
            assert(decreases_to!(v => items));
            assert(decreases_to!(items => items@));
        }
    }

    pub fn as_str(&self) -> (r: Option<&str>)
        ensures
            r matches Some(s) ==> self.spec_as_str() == Some(s@),
            r is None ==> self.spec_as_str() is None,
    {
        match self {
            JsonValue::String(s, _) => Some(s.as_str()),
            _ => None,
        }
    }

    pub fn as_array(&self) -> (r: Option<&Vec<JsonValue>>)
        ensures
            r matches Some(v) ==> self.spec_as_array() == Some(v@),
            r is None ==> self.spec_as_array() is None,
    {
        match self {
            JsonValue::Array(items) => Some(items),
            _ => None,
        }
    }

    pub fn as_bool(&self) -> (r: Option<bool>)
        ensures
            r == self.spec_as_bool(),
    {
        match self {
            JsonValue::Bool(b) => Some(*b),
            _ => None,
        }
    }

    pub fn is_string(&self) -> (r: bool)
        ensures
            r == (*self is String),
    {
        match self {
            JsonValue::String(_, _) => true,
            _ => false,
        }
    }

    pub fn is_number(&self) -> (r: bool)
        ensures
            r == (*self is Number),
    {
        match self {
            JsonValue::Number(_) => true,
            _ => false,
        }
    }

    pub fn is_null(&self) -> (r: bool)
        ensures
            r == (*self is Null),
    {
        match self {
            JsonValue::Null => true,
            _ => false,
        }
    }

    pub fn is_array(&self) -> (r: bool)
        ensures
            r == (*self is Array),
    {
        match self {
            JsonValue::Array(_) => true,
            _ => false,
        }
    }

    pub fn is_object(&self) -> (r: bool)
        ensures
            r == (*self is Object),
    {
        match self {
            JsonValue::Object(_) => true,
            _ => false,
        }
    }

    /// Element `i` of an array.
    pub fn at(&self, i: usize) -> (r: Option<&JsonValue>)
        ensures
            r matches Some(c) ==> self.spec_at(i as int) == Some(*c),
            r is None ==> self.spec_at(i as int) is None,
    {
        match self {
            JsonValue::Array(items) => if i < items.len() {
                Some(&items[i])
            } else {
                None
            },
            _ => None,
        }
    }

    /// The string held at field `key`.
    pub fn get_str(&self, key: &str) -> (r: Option<&str>)
        ensures
            r matches Some(s) ==> self.spec_get_str(key@) == Some(s@),
            r is None ==> self.spec_get_str(key@) is None,
    {
        match self.get(key) {
            Some(v) => v.as_str(),
            None => None,
        }
    }

    /// The array held at field `key`.
    pub fn get_array(&self, key: &str) -> (r: Option<&Vec<JsonValue>>)
        ensures
            r matches Some(v) ==> self.spec_get_array(key@) == Some(v@),
            r is None ==> self.spec_get_array(key@) is None,
    {
        match self.get(key) {
            Some(v) => v.as_array(),
            None => None,
        }
    }
}

/// Two JSON values hold the same data: the same texts and numbers, and,
/// for arrays and objects, the same items and fields in the same order.
pub open spec fn json_same(a: JsonValue, b: JsonValue) -> bool
    decreases a,
{
    match (a, b) {
        (JsonValue::Null, JsonValue::Null) => true,
        (JsonValue::Bool(x), JsonValue::Bool(y)) => x == y,
        (JsonValue::Number(x), JsonValue::Number(y)) => {
            &&& x.js_text@ == y.js_text@
            &&& x.json_text@ == y.json_text@
            &&& x.truncated == y.truncated
            &&& x.as_u64 == y.as_u64
        },
        (JsonValue::String(x, xn), JsonValue::String(y, yn)) => x@ == y@ && xn == yn,
        (JsonValue::Array(xs), JsonValue::Array(ys)) => xs@.len() == ys@.len() && forall|i: int|
            0 <= i < xs@.len() ==> json_same(#[trigger] xs@[i], ys@[i]),
        (JsonValue::Object(xs), JsonValue::Object(ys)) => fields_same(xs@, ys@),
        _ => false,
    }
}

/// Two field lists with the same keys and the same values, in order.
pub open spec fn fields_same(xs: Seq<(String, JsonValue)>, ys: Seq<(String, JsonValue)>) -> bool
    decreases xs,
{
    xs.len() == ys.len() && forall|i: int|
        0 <= i < xs.len() ==> #[trigger] xs[i].0@ == ys[i].0@ && json_same(xs[i].1, ys[i].1)
}

/// A copy of a JSON value.
pub fn clone_json(v: &JsonValue) -> (r: JsonValue)
    ensures
        json_same(*v, r),
    decreases v,
{
    match v {
        JsonValue::Null => JsonValue::Null,
        JsonValue::Bool(b) => JsonValue::Bool(*b),
        JsonValue::Number(n) => JsonValue::Number(
            JsonNumber {
                js_text: n.js_text.clone(),
                json_text: n.json_text.clone(),
                truncated: n.truncated,
                as_u64: n.as_u64,
            },
        ),
        JsonValue::String(s, t) => JsonValue::String(s.clone(), *t),
        JsonValue::Array(items) => {
            let mut out: Vec<JsonValue> = Vec::new();
            let mut i: usize = 0;
            while i < items.len()
                invariant
                    0 <= i <= items@.len(),
                    *v == JsonValue::Array(*items),
                    out@.len() == i,
                    forall|j: int| 0 <= j < i ==> json_same(#[trigger] items@[j], out@[j]),
                decreases items.len() - i,
            {
                proof {
                    assert(v->Array_0 == *items);
                    assert(decreases_to!(*v => v->Array_0));
                    assert(decreases_to!(*items => items@));
                    assert(decreases_to!(items@ => items@[i as int]));
                }
                out.push(clone_json(&items[i]));
                i = i + 1;
            }
            JsonValue::Array(out)
        },
        JsonValue::Object(fields) => JsonValue::Object(clone_fields(fields)),
    }
}

/// A copy of the fields of an object.
pub fn clone_fields(fields: &Vec<(String, JsonValue)>) -> (r: Vec<(String, JsonValue)>)
    ensures
        fields_same(fields@, r@),
    decreases fields@,
{
    let mut out: Vec<(String, JsonValue)> = Vec::new();
    let mut i: usize = 0;
    while i < fields.len()
        invariant
            0 <= i <= fields@.len(),
            out@.len() == i,
            forall|j: int|
                0 <= j < i ==> #[trigger] fields@[j].0@ == out@[j].0@ && json_same(
                    fields@[j].1,
                    out@[j].1,
                ),
        decreases fields.len() - i,
    {
        proof {
            assert(decreases_to!(fields@ => fields@[i as int]));
            assert(decreases_to!(fields@[i as int] => fields@[i as int].1));
        }
        let key = fields[i].0.clone();
        let value = clone_json(&fields[i].1);
        out.push((key, value));
        i = i + 1;
    }
    out
}

/// A value holds the same data as itself.
pub proof fn lemma_json_same_refl(v: JsonValue)
    ensures
        json_same(v, v),
    decreases v,
{
    match v {
        JsonValue::Array(items) => {
            assert forall|i: int| 0 <= i < items@.len() implies json_same(#[trigger] items@[i], items@[i]) by {
                assert(decreases_to!(v => items));
                assert(decreases_to!(items => items@));
                assert(decreases_to!(items@ => items@[i]));
                lemma_json_same_refl(items@[i]);
            }
        },
        JsonValue::Object(fields) => {
            assert(decreases_to!(v => fields));
            assert(decreases_to!(fields => fields@));
            lemma_fields_same_refl(fields@);
        },
        _ => {},
    }
}

/// Fields hold the same data as themselves.
pub proof fn lemma_fields_same_refl(f: Seq<(String, JsonValue)>)
    ensures
        fields_same(f, f),
    decreases f,
{
    assert forall|i: int| 0 <= i < f.len() implies json_same(#[trigger] f[i].1, f[i].1) by {
        assert(decreases_to!(f => f[i]));
        assert(decreases_to!(f[i] => f[i].1));
        lemma_json_same_refl(f[i].1);
    }
}

/// Holding the same data is symmetric and transitive.
pub proof fn lemma_json_same_sym_trans(a: JsonValue, b: JsonValue, c: JsonValue)
    ensures
        json_same(a, b) ==> json_same(b, a),
        json_same(a, b) && json_same(b, c) ==> json_same(a, c),
    decreases a,
{
    match (a, b, c) {
        (JsonValue::Array(xs), JsonValue::Array(ys), _) => {
            assert forall|i: int| 0 <= i < xs@.len() && i < ys@.len() implies (json_same(
                #[trigger] xs@[i],
                ys@[i],
            ) ==> json_same(ys@[i], xs@[i])) by {
                assert(decreases_to!(a => xs));
                assert(decreases_to!(xs => xs@));
                assert(decreases_to!(xs@ => xs@[i]));
                lemma_json_same_sym_trans(xs@[i], ys@[i], ys@[i]);
            }
            if let JsonValue::Array(zs) = c {
                assert forall|i: int| 0 <= i < xs@.len() && i < ys@.len() && i < zs@.len() implies (json_same(
                    #[trigger] xs@[i],
                    ys@[i],
                ) && json_same(ys@[i], zs@[i]) ==> json_same(xs@[i], zs@[i])) by {
                    assert(decreases_to!(a => xs));
                    assert(decreases_to!(xs => xs@));
                    assert(decreases_to!(xs@ => xs@[i]));
                    lemma_json_same_sym_trans(xs@[i], ys@[i], zs@[i]);
                }
            }
        },
        (JsonValue::Object(xs), JsonValue::Object(ys), _) => {
            assert(decreases_to!(a => xs));
            assert(decreases_to!(xs => xs@));
            lemma_fields_same_sym_trans(xs@, ys@, ys@);
            if let JsonValue::Object(zs) = c {
                lemma_fields_same_sym_trans(xs@, ys@, zs@);
            }
        },
        _ => {},
    }
}

/// Field lists holding the same data: symmetric and transitive.
pub proof fn lemma_fields_same_sym_trans(
    xs: Seq<(String, JsonValue)>,
    ys: Seq<(String, JsonValue)>,
    zs: Seq<(String, JsonValue)>,
)
    ensures
        fields_same(xs, ys) ==> fields_same(ys, xs),
        fields_same(xs, ys) && fields_same(ys, zs) ==> fields_same(xs, zs),
    decreases xs,
{
    assert forall|i: int| 0 <= i < xs.len() && i < ys.len() && i < zs.len() implies (json_same(
        #[trigger] xs[i].1,
        ys[i].1,
    ) ==> json_same(ys[i].1, xs[i].1)) && (json_same(xs[i].1, ys[i].1) && json_same(ys[i].1, zs[i].1)
        ==> json_same(xs[i].1, zs[i].1)) by {
        assert(decreases_to!(xs => xs[i]));
        assert(decreases_to!(xs[i] => xs[i].1));
        lemma_json_same_sym_trans(xs[i].1, ys[i].1, zs[i].1);
    }
    assert forall|i: int| 0 <= i < xs.len() && i < ys.len() implies (json_same(
        #[trigger] xs[i].1,
        ys[i].1,
    ) ==> json_same(ys[i].1, xs[i].1)) by {
        assert(decreases_to!(xs => xs[i]));
        assert(decreases_to!(xs[i] => xs[i].1));
        lemma_json_same_sym_trans(xs[i].1, ys[i].1, ys[i].1);
    }
    if fields_same(xs, ys) {
        assert(xs.len() == ys.len());
        assert forall|i: int| 0 <= i < ys.len() implies #[trigger] ys[i].0@ == xs[i].0@ && json_same(
            ys[i].1,
            xs[i].1,
        ) by {
            assert(0 <= i < xs.len());
            assert(xs[i].0@ == ys[i].0@ && json_same(xs[i].1, ys[i].1));
        }
        if fields_same(ys, zs) {
            assert forall|i: int| 0 <= i < xs.len() implies #[trigger] xs[i].0@ == zs[i].0@ && json_same(
                xs[i].1,
                zs[i].1,
            ) by {
                assert(xs[i].0@ == ys[i].0@ && json_same(xs[i].1, ys[i].1));
                assert(ys[i].0@ == zs[i].0@ && json_same(ys[i].1, zs[i].1));
            }
        }
    }
}

} // verus!
