//! Character-level string helpers with their contracts.

use vstd::prelude::*;

verus! {

/// The characters of each string, in order.
pub open spec fn view_strings(v: Seq<String>) -> Seq<Seq<char>> {
    v.map_values(|s: String| s@)
}

pub proof fn lemma_view_strings_push(v: Seq<String>, s: String)
    ensures
        view_strings(v.push(s)) == view_strings(v).push(s@),
{
    assert(view_strings(v.push(s)) =~= view_strings(v).push(s@));
}

/// Rust's `char::is_whitespace`: the Unicode `White_Space` code points.
pub open spec fn is_white_space(c: char) -> bool {
    ||| '\t' <= c <= '\r'
    ||| c == ' '
    ||| c == '\u{85}'
    ||| c == '\u{A0}'
    ||| c == '\u{1680}'
    ||| '\u{2000}' <= c <= '\u{200A}'
    ||| c == '\u{2028}'
    ||| c == '\u{2029}'
    ||| c == '\u{202F}'
    ||| c == '\u{205F}'
    ||| c == '\u{3000}'
}

pub fn char_is_white_space(c: char) -> (r: bool)
    ensures
        r == is_white_space(c),
{
    ('\t' <= c && c <= '\r') || c == ' ' || c == '\u{85}' || c == '\u{A0}' || c == '\u{1680}'
        || ('\u{2000}' <= c && c <= '\u{200A}') || c == '\u{2028}' || c == '\u{2029}' || c
        == '\u{202F}' || c == '\u{205F}' || c == '\u{3000}'
}

/// ECMAScript `WhiteSpace` and `LineTerminator` code points: what
/// `String.prototype.trim` strips.
pub open spec fn is_js_white_space(c: char) -> bool {
    ||| c == '\t'
    ||| c == '\n'
    ||| c == '\u{0B}'
    ||| c == '\u{0C}'
    ||| c == '\r'
    ||| c == ' '
    ||| c == '\u{A0}'
    ||| c == '\u{1680}'
    ||| '\u{2000}' <= c <= '\u{200A}'
    ||| c == '\u{2028}'
    ||| c == '\u{2029}'
    ||| c == '\u{202F}'
    ||| c == '\u{205F}'
    ||| c == '\u{3000}'
    ||| c == '\u{FEFF}'
}

/// Whether a character is ECMAScript white space or a line terminator.
pub fn is_js_whitespace(c: char) -> (r: bool)
    ensures
        r == is_js_white_space(c),
{
    c == '\t' || c == '\n' || c == '\u{0B}' || c == '\u{0C}' || c == '\r' || c == ' ' || c
        == '\u{A0}' || c == '\u{1680}' || ('\u{2000}' <= c && c <= '\u{200A}') || c == '\u{2028}'
        || c == '\u{2029}' || c == '\u{202F}' || c == '\u{205F}' || c == '\u{3000}' || c
        == '\u{FEFF}'
}

/// Every character is white space (so `str::trim` leaves nothing).
pub open spec fn is_blank(s: Seq<char>) -> bool {
    forall|i: int| 0 <= i < s.len() ==> is_white_space(#[trigger] s[i])
}

/// `str::trim_start`.
pub open spec fn trim_start_seq(s: Seq<char>) -> Seq<char>
    decreases s.len(),
{
    if s.len() > 0 && is_white_space(s[0]) {
        trim_start_seq(s.drop_first())
    } else {
        s
    }
}

/// `str::trim_end`.
pub open spec fn trim_end_seq(s: Seq<char>) -> Seq<char>
    decreases s.len(),
{
    if s.len() > 0 && is_white_space(s.last()) {
        trim_end_seq(s.drop_last())
    } else {
        s
    }
}

/// `str::trim`.
pub open spec fn trim_seq(s: Seq<char>) -> Seq<char> {
    trim_end_seq(trim_start_seq(s))
}

/// Appends a character to a string.
#[verifier::external_body]
pub(crate) fn push_char(s: &mut String, c: char)
    ensures
        final(s)@ == old(s)@.push(c),
{
    s.push(c)
}

/// The characters of a string, in order.
pub fn chars_of(s: &str) -> (v: Vec<char>)
    ensures
        v@ == s@,
{
    let mut v: Vec<char> = Vec::new();
    for c in it: s.chars()
        invariant
            v@ == it.seq().take(it.index() as int),
            it.seq() == s@,
    {
        v.push(c);
    }
    v
}

/// The string made of `v[from..to]`.
pub fn string_from_range(v: &Vec<char>, from: usize, to: usize) -> (s: String)
    requires
        from <= to <= v@.len(),
    ensures
        s@ == v@.subrange(from as int, to as int),
{
    let mut s = String::new();
    let mut i = from;
    while i < to
        invariant
            from <= i <= to <= v@.len(),
            s@ == v@.subrange(from as int, i as int),
        decreases to - i,
    {
        push_char(&mut s, v[i]);
        assert(v@.subrange(from as int, i + 1) =~= v@.subrange(from as int, i as int).push(
            v@[i as int],
        ));
        i = i + 1;
    }
    s
}

/// The string made of the characters of `v`.
pub fn string_from(v: &Vec<char>) -> (s: String)
    ensures
        s@ == v@,
{
    let s = string_from_range(v, 0, v.len());
    assert(v@.subrange(0, v@.len() as int) =~= v@);
    s
}

/// A copy of a string slice.
pub fn to_string(s: &str) -> (r: String)
    ensures
        r@ == s@,
{
    s.to_owned()
}

/// Whether two strings hold the same characters.
pub fn str_eq(a: &str, b: &str) -> (r: bool)
    ensures
        r == (a@ == b@),
{
    let va = chars_of(a);
    let vb = chars_of(b);
    seq_eq(&va, &vb)
}

/// Whether two character vectors are equal.
pub fn seq_eq(a: &Vec<char>, b: &Vec<char>) -> (r: bool)
    ensures
        r == (a@ == b@),
{
    if a.len() != b.len() {
        return false;
    }
    let mut i: usize = 0;
    while i < a.len()
        invariant
            a@.len() == b@.len(),
            0 <= i <= a@.len(),
            forall|j: int| 0 <= j < i ==> a@[j] == b@[j],
        decreases a.len() - i,
    {
        if a[i] != b[i] {
            return false;
        }
        i = i + 1;
    }
    assert(a@ =~= b@);
    true
}

/// `needle` occurs in `s` at position `at`.
pub open spec fn occurs_at(s: Seq<char>, needle: Seq<char>, at: int) -> bool {
    0 <= at && at + needle.len() <= s.len() && s.subrange(at, at + needle.len()) == needle
}

/// `str::contains` with a string pattern.
pub open spec fn contains_seq(s: Seq<char>, needle: Seq<char>) -> bool {
    exists|at: int| occurs_at(s, needle, at)
}

fn occurs_at_exec(s: &Vec<char>, needle: &Vec<char>, at: usize) -> (r: bool)
    requires
        at + needle@.len() <= s@.len(),
    ensures
        r == occurs_at(s@, needle@, at as int),
{
    let n = s.len();
    let mut k: usize = 0;
    while k < needle.len()
        invariant
            at + needle@.len() <= s@.len(),
            n == s@.len(),
            0 <= k <= needle@.len(),
            forall|j: int| 0 <= j < k ==> s@[at + j] == needle@[j],
        decreases needle.len() - k,
    {
        if s[at + k] != needle[k] {
            assert(s@.subrange(at as int, at + needle@.len())[k as int] != needle@[k as int]);
            return false;
        }
        k = k + 1;
    }
    assert(s@.subrange(at as int, at + needle@.len()) =~= needle@);
    true
}

/// Whether `needle` occurs in `s`.
pub fn vec_contains_seq(s: &Vec<char>, needle: &Vec<char>) -> (r: bool)
    ensures
        r == contains_seq(s@, needle@),
{
    if needle.len() > s.len() {
        assert forall|at: int| !occurs_at(s@, needle@, at) by {}
        return false;
    }
    let last = s.len() - needle.len();
    let mut at: usize = 0;
    loop
        invariant
            last + needle@.len() == s@.len(),
            at <= last,
            forall|j: int| 0 <= j < at ==> !occurs_at(s@, needle@, j),
        decreases last - at,
    {
        if occurs_at_exec(s, needle, at) {
            return true;
        }
        if at == last {
            assert forall|j: int| !occurs_at(s@, needle@, j) by {
                if 0 <= j <= at {
                }
            }
            return false;
        }
        at = at + 1;
    }
}

/// `str::contains` with a string pattern.
pub fn str_contains(s: &str, needle: &str) -> (r: bool)
    ensures
        r == contains_seq(s@, needle@),
{
    let vs = chars_of(s);
    let vn = chars_of(needle);
    vec_contains_seq(&vs, &vn)
}

/// `str::starts_with` with a string pattern.
pub fn str_starts_with(s: &str, prefix: &str) -> (r: bool)
    ensures
        r == prefix@.is_prefix_of(s@),
{
    let vs = chars_of(s);
    let vp = chars_of(prefix);
    if vp.len() > vs.len() {
        return false;
    }
    let r = occurs_at_exec(&vs, &vp, 0);
    proof {
        if r {
            assert forall|i: int| 0 <= i < vp@.len() implies vp@[i] == vs@[i] by {
                assert(vs@.subrange(0, vp@.len() as int)[i] == vs@[i]);
            }
        } else {
            if prefix@.is_prefix_of(s@) {
                assert(vs@.subrange(0, vp@.len() as int) =~= vp@);
            }
        }
    }
    r
}

/// `str::ends_with` with a string pattern.
pub fn str_ends_with(s: &str, suffix: &str) -> (r: bool)
    ensures
        r == suffix@.is_suffix_of(s@),
{
    let vs = chars_of(s);
    let vp = chars_of(suffix);
    if vp.len() > vs.len() {
        return false;
    }
    let at = vs.len() - vp.len();
    let r = occurs_at_exec(&vs, &vp, at);
    proof {
        if r {
            assert forall|i: int| 0 <= i < vp@.len() implies vp@[i] == vs@[at + i] by {
                assert(vs@.subrange(at as int, at + vp@.len())[i] == vs@[at + i]);
            }
        } else {
            if suffix@.is_suffix_of(s@) {
                assert(vs@.subrange(at as int, at + vp@.len()) =~= vp@);
            }
        }
    }
    r
}

/// Whether a string is empty or made of white space only.
pub fn str_is_blank(s: &str) -> (r: bool)
    ensures
        r == is_blank(s@),
{
    let v = chars_of(s);
    let mut i: usize = 0;
    while i < v.len()
        invariant
            v@ == s@,
            0 <= i <= v@.len(),
            forall|j: int| 0 <= j < i ==> is_white_space(#[trigger] v@[j]),
        decreases v.len() - i,
    {
        if !char_is_white_space(v[i]) {
            return false;
        }
        i = i + 1;
    }
    true
}

pub proof fn lemma_trim_start_skip(s: Seq<char>, i: int)
    requires
        0 <= i <= s.len(),
        forall|j: int| 0 <= j < i ==> is_white_space(#[trigger] s[j]),
    ensures
        trim_start_seq(s) == trim_start_seq(s.subrange(i, s.len() as int)),
    decreases i,
{
    if i > 0 {
        assert(s.drop_first().subrange(i - 1, s.drop_first().len() as int) =~= s.subrange(
            i,
            s.len() as int,
        ));
        assert forall|j: int| 0 <= j < i - 1 implies is_white_space(#[trigger] s.drop_first()[j]) by {
            assert(s.drop_first()[j] == s[j + 1]);
        }
        lemma_trim_start_skip(s.drop_first(), i - 1);
    } else {
        assert(s.subrange(0, s.len() as int) =~= s);
    }
}

pub proof fn lemma_trim_end_take(s: Seq<char>, i: int)
    requires
        0 <= i <= s.len(),
        forall|j: int| i <= j < s.len() ==> is_white_space(#[trigger] s[j]),
    ensures
        trim_end_seq(s) == trim_end_seq(s.subrange(0, i)),
    decreases s.len() - i,
{
    if i < s.len() {
        assert(s.drop_last().subrange(0, i) =~= s.subrange(0, i));
        assert forall|j: int| i <= j < s.len() - 1 implies is_white_space(
            #[trigger] s.drop_last()[j],
        ) by {
            assert(s.drop_last()[j] == s[j]);
        }
        lemma_trim_end_take(s.drop_last(), i);
    } else {
        assert(s.subrange(0, s.len() as int) =~= s);
    }
}

/// `str::trim`: the string without leading and trailing white space.
pub fn trim(s: &str) -> (r: String)
    ensures
        r@ == trim_seq(s@),
{
    let v = chars_of(s);
    let mut start: usize = 0;
    while start < v.len() && char_is_white_space(v[start])
        invariant
            v@ == s@,
            0 <= start <= v@.len(),
            forall|j: int| 0 <= j < start ==> is_white_space(#[trigger] v@[j]),
        decreases v.len() - start,
    {
        start = start + 1;
    }
    proof {
        lemma_trim_start_skip(v@, start as int);
    }
    let ghost rest = v@.subrange(start as int, v@.len() as int);
    assert(trim_start_seq(rest) == rest);
    let mut end: usize = v.len();
    while end > start && char_is_white_space(v[end - 1])
        invariant
            v@ == s@,
            rest == v@.subrange(start as int, v@.len() as int),
            start <= end <= v@.len(),
            forall|j: int| end <= j < v@.len() ==> is_white_space(#[trigger] v@[j]),
        decreases end,
    {
        end = end - 1;
    }
    proof {
        assert forall|j: int| end - start <= j < rest.len() implies is_white_space(
            #[trigger] rest[j],
        ) by {
            assert(rest[j] == v@[start + j]);
        }
        lemma_trim_end_take(rest, end - start);
        assert(rest.subrange(0, end - start) =~= v@.subrange(start as int, end as int));
    }
    string_from_range(&v, start, end)
}

/// All the strings of `v`, one after the other (`[String]::concat`).
pub fn concat(v: &Vec<String>) -> (r: String)
    ensures
        r@ == view_strings(v@).flatten(),
{
    let mut r = String::new();
    let mut i: usize = 0;
    while i < v.len()
        invariant
            0 <= i <= v@.len(),
            r@ == view_strings(v@).take(i as int).flatten_alt(),
        decreases v.len() - i,
    {
        r.append(v[i].as_str());
        assert(view_strings(v@).take(i + 1).drop_last() =~= view_strings(v@).take(i as int));
        i = i + 1;
    }
    proof {
        assert(view_strings(v@).take(v@.len() as int) =~= view_strings(v@));
        view_strings(v@).lemma_flatten_and_flatten_alt_are_equivalent();
    }
    r
}

/// The strings of `list` with `sep` between each two of them.
pub open spec fn join_seq(list: Seq<Seq<char>>, sep: Seq<char>) -> Seq<char>
    decreases list.len(),
{
    if list.len() == 0 {
        Seq::empty()
    } else if list.len() == 1 {
        list[0]
    } else {
        join_seq(list.drop_last(), sep) + sep + list.last()
    }
}

/// `[String]::join`.
pub fn join(v: &Vec<String>, sep: &str) -> (r: String)
    ensures
        r@ == join_seq(view_strings(v@), sep@),
{
    let mut r = String::new();
    let mut i: usize = 0;
    while i < v.len()
        invariant
            0 <= i <= v@.len(),
            r@ == join_seq(view_strings(v@).take(i as int), sep@),
        decreases v.len() - i,
    {
        if i != 0 {
            r.append(sep);
        }
        r.append(v[i].as_str());
        assert(view_strings(v@).take(i + 1).drop_last() =~= view_strings(v@).take(i as int));
        i = i + 1;
    }
    assert(view_strings(v@).take(v@.len() as int) =~= view_strings(v@));
    r
}

/// The decimal digits of a natural number.
pub open spec fn decimal(n: nat) -> Seq<char>
    decreases n,
{
    if n < 10 {
        seq![(n + '0' as nat) as char]
    } else {
        decimal(n / 10) + seq![((n % 10) + '0' as nat) as char]
    }
}

fn digit_char(d: u64) -> (c: char)
    requires
        d < 10,
    ensures
        c == (d + '0' as nat) as char,
{
    let digits = ['0', '1', '2', '3', '4', '5', '6', '7', '8', '9'];
    let c = digits[d as usize];
    assert(c == (d + '0' as nat) as char) by {
        assert(('0' as nat) == 48);
        if d == 0 {} else if d == 1 {} else if d == 2 {} else if d == 3 {} else if d == 4 {}
        else if d == 5 {} else if d == 6 {} else if d == 7 {} else if d == 8 {} else {}
    }
    c
}

/// Appends the decimal digits of `n`.
pub fn push_decimal(out: &mut String, n: u64)
    ensures
        final(out)@ == old(out)@ + decimal(n as nat),
    decreases n,
{
    if n < 10 {
        push_char(out, digit_char(n));
    } else {
        push_decimal(out, n / 10);
        push_char(out, digit_char(n % 10));
    }
    assert(out@ =~= old(out)@ + decimal(n as nat));
}

/// Whether `v` holds a string equal to `s`.
pub fn strings_contain(v: &Vec<String>, s: &str) -> (r: bool)
    ensures
        r == view_strings(v@).contains(s@),
{
    let mut i: usize = 0;
    while i < v.len()
        invariant
            0 <= i <= v@.len(),
            forall|j: int| 0 <= j < i ==> v@[j]@ != s@,
        decreases v.len() - i,
    {
        if str_eq(v[i].as_str(), s) {
            assert(view_strings(v@)[i as int] == s@);
            return true;
        }
        i = i + 1;
    }
    proof {
        if view_strings(v@).contains(s@) {
            let j = choose|j: int| 0 <= j < view_strings(v@).len() && view_strings(v@)[j] == s@;
            assert(v@[j]@ == s@);
        }
    }
    false
}

/// The position of the first `.` of `s`.
pub open spec fn first_dot(s: Seq<char>) -> Option<int>
    decreases s.len(),
{
    if s.len() == 0 {
        None
    } else {
        match first_dot(s.drop_last()) {
            Some(i) => Some(i),
            None => if s.last() == '.' {
                Some(s.len() - 1)
            } else {
                None
            },
        }
    }
}

pub proof fn lemma_first_dot(s: Seq<char>)
    ensures
        first_dot(s) matches Some(i) ==> 0 <= i < s.len() && s[i] == '.' && forall|j: int|
            0 <= j < i ==> s[j] != '.',
        first_dot(s) is None ==> forall|j: int| 0 <= j < s.len() ==> s[j] != '.',
    decreases s.len(),
{
    if s.len() > 0 {
        lemma_first_dot(s.drop_last());
        assert forall|j: int| 0 <= j < s.len() - 1 implies s[j] == s.drop_last()[j] by {}
    }
}

/// The parts of `s` before and after its first `.`, if it has one.
pub fn split_at_first_dot(s: &str) -> (r: Option<(String, String)>)
    ensures
        match first_dot(s@) {
            Some(d) => r is Some && (r->0).0@ == s@.take(d) && (r->0).1@ == s@.skip(d + 1),
            None => r is None,
        },
{
    let chars = chars_of(s);
    proof {
        lemma_first_dot(chars@);
    }
    let mut d: usize = 0;
    while d < chars.len() && chars[d] != '.'
        invariant
            chars@ == s@,
            0 <= d <= chars@.len(),
            forall|j: int| 0 <= j < d ==> chars@[j] != '.',
        decreases chars.len() - d,
    {
        d = d + 1;
    }
    if d == chars.len() {
        proof {
            match first_dot(s@) {
                Some(f) => {
                    assert(chars@[f] == '.');
                },
                None => {},
            }
        }
        return None;
    }
    proof {
        match first_dot(s@) {
            Some(f) => {
                assert(f == d);
            },
            None => {},
        }
        assert(chars@.subrange(0, d as int) =~= s@.take(d as int));
        assert(chars@.subrange(d + 1, chars@.len() as int) =~= s@.skip(d + 1));
    }
    Some((string_from_range(&chars, 0, d), string_from_range(&chars, d + 1, chars.len())))
}

/// A copy of a list of strings.
pub fn clone_strings(v: &Vec<String>) -> (r: Vec<String>)
    ensures
        view_strings(r@) == view_strings(v@),
{
    let mut r: Vec<String> = Vec::new();
    let mut i: usize = 0;
    while i < v.len()
        invariant
            0 <= i <= v@.len(),
            view_strings(r@) == view_strings(v@).take(i as int),
        decreases v.len() - i,
    {
        let ghost before = r@;
        r.push(v[i].clone());
        proof {
            lemma_view_strings_push(before, v@[i as int]);
            assert(view_strings(v@).take(i + 1) =~= view_strings(v@).take(i as int).push(
                v@[i as int]@,
            ));
        }
        i = i + 1;
    }
    proof {
        assert(view_strings(v@).take(v@.len() as int) =~= view_strings(v@));
    }
    r
}

} // verus!
