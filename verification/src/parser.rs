//! Source parsing: line tables and the ESTree programs built from parses.

use vstd::prelude::*;
use vstd::slice::slice_subrange;
use vstd::string::StringSliceAdditionalSpecFns;
use vstd::utf8::{decode_utf8, encode_utf8, pop_first_scalar, valid_utf8};

use oxc_allocator::Allocator;
use oxc_parser::{ParseOptions, Parser};
use oxc_span::SourceType;

use crate::probe::opt_view;
use crate::estree::location::{
    as_u64, spec_as_u64, spec_location, spec_node_location, spec_position, Position, SourceLocation,
};
use crate::json::{
    field_index, field_of, field_value, find_field, lemma_field_index_at, lemma_field_index_bounds,
    lemma_field_index_same_keys, JsonNumber, JsonValue,
};
use crate::text::{contains_seq, decimal, push_decimal, str_contains, to_string};

verus! {

/// A parse failure with the parser's message.
#[derive(Debug)]
pub struct ParseError {
    pub message: String,
}

/// The JavaScript parser: ES module first, CommonJS when a top-level
/// `return` is refused.
pub struct JsSourceParser;

/// The TypeScript parser.
pub struct TsSourceParser;

/// The grammars sources are parsed with, all of them with JSX.
#[derive(Debug, Clone, Copy, PartialEq, Eq, Structural)]
pub enum SourceKind {
    /// An ES module.
    Module,
    /// A CommonJS script.
    Script,
    /// TypeScript.
    TypeScript,
}

/// What oxc gives for a source parsed with a grammar (with or without JSX,
/// keeping parenthesized-expression nodes or not): the message of its first
/// diagnostic (if any), whether the parser gave up, and the program
/// serialized as ESTree JSON text.
pub uninterp spec fn oxc_parse(
    source: Seq<char>,
    kind: SourceKind,
    jsx: bool,
    allow_return_outside_function: bool,
    preserve_parens: bool,
) -> (Option<Seq<char>>, bool, Seq<char>);

/// `Parser::parse` of oxc, then `Program::to_estree_json` on its program, in
/// one item: the program lives in the allocator of the call. Gives the first
/// diagnostic's message, the `panicked` flag and the JSON text, as the name
/// says.
#[verifier::external_body]
fn oxc_parse_to_estree(
    source: &str,
    kind: SourceKind,
    jsx: bool,
    allow_return_outside_function: bool,
    preserve_parens: bool,
) -> (r: (Option<String>, bool, String))
    ensures
        (opt_view(r.0), r.1, r.2@) == oxc_parse(
            source@,
            kind,
            jsx,
            allow_return_outside_function,
            preserve_parens,
        ),
{
    let source_type = match kind {
        SourceKind::Module => SourceType::mjs().with_jsx(jsx),
        SourceKind::Script => SourceType::cjs().with_jsx(jsx),
        SourceKind::TypeScript => SourceType::ts().with_jsx(jsx),
    };
    let options = ParseOptions { allow_return_outside_function, preserve_parens, ..ParseOptions::default() };
    let allocator = Allocator::default();
    let ret = Parser::new(&allocator, source, source_type).with_options(options).parse();
    let message = match ret.diagnostics.first() {
        Some(diagnostic) => Some(diagnostic.message.to_string()),
        None => None,
    };
    (message, ret.panicked, ret.program.to_estree_json(false, false))
}

/// The ESTree JSON text of a source parsed with a grammar, or the error: the
/// first diagnostic's message, else a fixed message when the parser gave
/// up.
pub open spec fn spec_parse_with(source: Seq<char>, kind: SourceKind, allow_return_outside_function: bool) -> Result<
    Seq<char>,
    Seq<char>,
> {
    let (diagnostic, panicked, json) = oxc_parse(source, kind, true, allow_return_outside_function, false);
    match diagnostic {
        Some(m) => Err(m),
        None => if panicked {
            Err("Failed to parse source"@)
        } else {
            Ok(json)
        },
    }
}

/// The ESTree JSON text of a source parsed with a grammar, or the error.
pub fn parse_with(source: &str, kind: SourceKind, allow_return_outside_function: bool) -> (r: Result<
    String,
    ParseError,
>)
    ensures
        match r {
            Ok(json) => spec_parse_with(source@, kind, allow_return_outside_function) == Ok::<
                Seq<char>,
                Seq<char>,
            >(json@),
            Err(e) => spec_parse_with(source@, kind, allow_return_outside_function) == Err::<
                Seq<char>,
                Seq<char>,
            >(e.message@),
        },
{
    let (diagnostic, panicked, json) = oxc_parse_to_estree(source, kind, true, allow_return_outside_function, false);
    match diagnostic {
        Some(message) => Err(ParseError { message }),
        None => {
            if panicked {
                Err(ParseError { message: to_string("Failed to parse source") })
            } else {
                Ok(json)
            }
        },
    }
}

/// `str::to_lowercase`: the Unicode lowercase mapping of each character.
pub uninterp spec fn spec_to_lowercase(s: Seq<char>) -> Seq<char>;

/// `str::to_lowercase`.
#[verifier::external_body]
fn to_lowercase(s: &str) -> (r: String)
    ensures
        r@ == spec_to_lowercase(s@),
{
    s.to_lowercase()
}

/// Whether a parse error is the refusal of a top-level `return`.
pub open spec fn spec_is_illegal_return(message: Seq<char>) -> bool {
    contains_seq(spec_to_lowercase(message), "return statement"@) || contains_seq(
        spec_to_lowercase(message),
        "'return' statement"@,
    )
}

/// Whether a parse error is the refusal of a top-level `return`.
pub fn is_illegal_return(message: &str) -> (r: bool)
    ensures
        r == spec_is_illegal_return(message@),
{
    let lowered = to_lowercase(message);
    str_contains(lowered.as_str(), "return statement") || str_contains(
        lowered.as_str(),
        "'return' statement",
    )
}

/// A JavaScript source as an ES module; where that refuses a top-level
/// `return`, as a CommonJS script that allows it.
pub open spec fn spec_js_parse(source: Seq<char>) -> Result<Seq<char>, Seq<char>> {
    match spec_parse_with(source, SourceKind::Module, false) {
        Ok(json) => Ok(json),
        Err(m) => if spec_is_illegal_return(m) {
            spec_parse_with(source, SourceKind::Script, true)
        } else {
            Err(m)
        },
    }
}

impl JsSourceParser {
    /// The file extensions of JavaScript sources.
    pub fn file_extensions() -> (r: Vec<String>)
        ensures
            crate::text::view_strings(r@) == seq![".js"@, ".cjs"@, ".mjs"@, ".jsx"@],
    {
        let r = crate::probes::strings(&[".js", ".cjs", ".mjs", ".jsx"]);
        proof {
            assert(crate::text::view_strings(r@) =~= seq![".js"@, ".cjs"@, ".mjs"@, ".jsx"@]);
        }
        r
    }
}

impl TsSourceParser {
    /// The file extensions of TypeScript sources.
    pub fn file_extensions() -> (r: Vec<String>)
        ensures
            crate::text::view_strings(r@) == seq![".ts"@, ".mts"@, ".cts"@, ".tsx"@],
    {
        let r = crate::probes::strings(&[".ts", ".mts", ".cts", ".tsx"]);
        proof {
            assert(crate::text::view_strings(r@) =~= seq![".ts"@, ".mts"@, ".cts"@, ".tsx"@]);
        }
        r
    }
}

/// A parser of sources into the ESTree program they hold.
pub trait SourceParser {
    /// What parsing a source gives: the program's JSON text, or the
    /// parser's message.
    spec fn spec_parse(&self, source: Seq<char>) -> Result<Seq<char>, Seq<char>>;

    /// The program of a source as ESTree JSON text.
    fn parse(&self, source: &str) -> (r: Result<String, ParseError>)
        ensures
            match r {
                Ok(json) => self.spec_parse(source@) == Ok::<Seq<char>, Seq<char>>(json@),
                Err(e) => self.spec_parse(source@) == Err::<Seq<char>, Seq<char>>(e.message@),
            },
    ;
}

impl SourceParser for JsSourceParser {
    open spec fn spec_parse(&self, source: Seq<char>) -> Result<Seq<char>, Seq<char>> {
        spec_js_parse(source)
    }

    fn parse(&self, source: &str) -> (r: Result<String, ParseError>) {
        match parse_with(source, SourceKind::Module, false) {
            Ok(json) => Ok(json),
            Err(error) => {
                if is_illegal_return(error.message.as_str()) {
                    parse_with(source, SourceKind::Script, true)
                } else {
                    Err(error)
                }
            },
        }
    }
}

impl SourceParser for TsSourceParser {
    open spec fn spec_parse(&self, source: Seq<char>) -> Result<Seq<char>, Seq<char>> {
        spec_parse_with(source, SourceKind::TypeScript, false)
    }

    fn parse(&self, source: &str) -> (r: Result<String, ParseError>) {
        parse_with(source, SourceKind::TypeScript, false)
    }
}

/// Byte offsets at which lines start: 0, then one past each `\n`.
pub open spec fn line_starts_of(b: Seq<u8>) -> Seq<usize>
    decreases b.len(),
{
    if b.len() == 0 {
        seq![0usize]
    } else {
        let prev = line_starts_of(b.drop_last());
        if b.last() == 10 {
            prev.push(b.len() as usize)
        } else {
            prev
        }
    }
}

/// For each line, whether it holds ASCII bytes only.
pub open spec fn ascii_flags_of(b: Seq<u8>) -> Seq<bool>
    decreases b.len(),
{
    if b.len() == 0 {
        seq![true]
    } else {
        let prev = ascii_flags_of(b.drop_last());
        if b.last() == 10 {
            prev.push(true)
        } else if b.last() >= 128 {
            prev.update(prev.len() - 1, false)
        } else {
            prev
        }
    }
}

/// How many UTF-16 code units the characters take.
pub open spec fn utf16_len(s: Seq<char>) -> nat
    decreases s.len(),
{
    if s.len() == 0 {
        0
    } else {
        utf16_len(s.drop_last()) + if (s.last() as int) >= 0x10000 {
            2nat
        } else {
            1nat
        }
    }
}

/// How many entries of `s` are at most `x`.
pub open spec fn count_at_most(s: Seq<usize>, x: int) -> nat
    decreases s.len(),
{
    if s.len() == 0 {
        0
    } else {
        count_at_most(s.drop_last(), x) + if s.last() <= x {
            1nat
        } else {
            0nat
        }
    }
}

pub open spec fn strictly_increasing(s: Seq<usize>) -> bool {
    forall|i: int, j: int| 0 <= i < j < s.len() ==> s[i] < s[j]
}

pub proof fn lemma_line_starts(b: Seq<u8>)
    requires
        b.len() <= usize::MAX,
    ensures
        line_starts_of(b).len() == ascii_flags_of(b).len(),
        line_starts_of(b).len() >= 1,
        line_starts_of(b)[0] == 0,
        strictly_increasing(line_starts_of(b)),
        forall|i: int| 0 <= i < line_starts_of(b).len() ==> #[trigger] line_starts_of(b)[i] <= b.len(),
    decreases b.len(),
{
    if b.len() > 0 {
        lemma_line_starts(b.drop_last());
        let prev = line_starts_of(b.drop_last());
        if b.last() == 10 {
            let cur = prev.push(b.len() as usize);
            assert forall|i: int, j: int| 0 <= i < j < cur.len() implies cur[i] < cur[j] by {
                if j == cur.len() - 1 {
                    assert(cur[i] == prev[i]);
                    assert(line_starts_of(b.drop_last())[i] <= b.drop_last().len());
                } else {
                    assert(cur[i] == prev[i] && cur[j] == prev[j]);
                }
            }
            assert forall|i: int| 0 <= i < cur.len() implies #[trigger] cur[i] <= b.len() by {
                if i < cur.len() - 1 {
                    assert(cur[i] == prev[i]);
                    assert(line_starts_of(b.drop_last())[i] <= b.drop_last().len());
                }
            }
        } else {
            assert forall|i: int| 0 <= i < prev.len() implies #[trigger] prev[i] <= b.len() by {
                assert(line_starts_of(b.drop_last())[i] <= b.drop_last().len());
            }
        }
    }
}

proof fn lemma_encode_utf8_len(chars: Seq<char>)
    ensures
        encode_utf8(chars).len() >= chars.len(),
    decreases chars.len(),
{
    if chars.len() > 0 {
        lemma_encode_utf8_len(chars.drop_first());
    }
}

/// Byte offset → (1-based line, 0-based UTF-16 column) mapping.
///
/// Columns count UTF-16 code units (JavaScript semantics). ASCII-only lines
/// take a fast path; other lines decode the line prefix.
pub struct LineTable {
    /// Byte offset at which each line starts.
    line_starts: Vec<usize>,
    /// Whether the line holds only ASCII bytes (column == byte offset).
    line_is_ascii: Vec<bool>,
    source: Vec<u8>,
}

impl LineTable {
    /// The source bytes.
    pub closed spec fn bytes(&self) -> Seq<u8> {
        self.source@
    }

    /// The start offsets of the lines.
    pub closed spec fn starts(&self) -> Seq<usize> {
        self.line_starts@
    }

    /// Which lines are ASCII-only.
    pub closed spec fn ascii(&self) -> Seq<bool> {
        self.line_is_ascii@
    }

    pub open spec fn wf(&self) -> bool {
        &&& self.starts() == line_starts_of(self.bytes())
        &&& self.ascii() == ascii_flags_of(self.bytes())
    }

    /// The line index and column of a byte offset, as `position` computes
    /// them: the line is the last one starting at or before the offset
    /// (clamped to the source length); the column counts bytes on an ASCII
    /// line, and UTF-16 units of the decoded line prefix otherwise, or bytes
    /// when the prefix is no valid UTF-8.
    pub open spec fn spec_position(&self, offset: int) -> (u64, u64) {
        let off = if offset < self.bytes().len() {
            offset
        } else {
            self.bytes().len() as int
        };
        let line_idx = count_at_most(self.starts(), off) - 1;
        let start = self.starts()[line_idx] as int;
        let prefix = self.bytes().subrange(start, off);
        let column = if self.ascii()[line_idx] {
            off - start
        } else if valid_utf8(prefix) {
            utf16_len(decode_utf8(prefix)) as int
        } else {
            off - start
        };
        ((line_idx + 1) as u64, column as u64)
    }

    pub fn new(source: &str) -> (r: LineTable)
        ensures
            r.wf(),
            r.bytes() == source.spec_bytes(),
    {
        let bytes = source.as_bytes();
        let mut line_starts: Vec<usize> = Vec::new();
        line_starts.push(0);
        let mut line_is_ascii: Vec<bool> = Vec::new();
        let mut current_ascii = true;
        let mut idx: usize = 0;
        while idx < bytes.len()
            invariant
                0 <= idx <= bytes@.len(),
                line_starts@ == line_starts_of(bytes@.take(idx as int)),
                line_is_ascii@.push(current_ascii) == ascii_flags_of(bytes@.take(idx as int)),
            decreases bytes.len() - idx,
        {
            let byte = bytes[idx];
            assert(bytes@.take(idx + 1).drop_last() =~= bytes@.take(idx as int));
            assert(bytes@.take(idx + 1).last() == byte);
            if byte == 10 {
                line_is_ascii.push(current_ascii);
                line_starts.push(idx + 1);
                current_ascii = true;
            } else if byte >= 128 {
                assert(line_is_ascii@.push(false) =~= line_is_ascii@.push(current_ascii).update(
                    line_is_ascii@.len() as int,
                    false,
                ));
                current_ascii = false;
            }
            idx = idx + 1;
        }
        assert(bytes@.take(bytes@.len() as int) =~= bytes@);
        line_is_ascii.push(current_ascii);
        let mut source_bytes: Vec<u8> = Vec::new();
        let mut k: usize = 0;
        while k < bytes.len()
            invariant
                0 <= k <= bytes@.len(),
                source_bytes@ == bytes@.take(k as int),
            decreases bytes.len() - k,
        {
            source_bytes.push(bytes[k]);
            assert(source_bytes@ =~= bytes@.take(k + 1));
            k = k + 1;
        }
        assert(source_bytes@ =~= bytes@);
        LineTable { line_starts, line_is_ascii, source: source_bytes }
    }

    pub fn position(&self, offset: usize) -> (r: (u64, u64))
        requires
            self.wf(),
        ensures
            r == self.spec_position(offset as int),
            r == source_position(self.bytes(), offset as int),
    {
        let nsource = self.source.len();
        proof {
            lemma_line_starts(self.source@);
        }
        let off = if offset < self.source.len() {
            offset
        } else {
            self.source.len()
        };
        let line_idx = last_at_most(&self.line_starts, off);
        let line_start = self.line_starts[line_idx];
        assert(line_start <= off) by {
            lemma_count_at_most_prefix_bound(self.line_starts@, off as int, line_idx as int);
        }
        let column: u64 = if self.line_is_ascii[line_idx] {
            (off - line_start) as u64
        } else {
            let prefix = slice_subrange(self.source.as_slice(), line_start, off);
            match utf8_str(prefix) {
                Some(s) => utf16_count(s),
                None => (off - line_start) as u64,
            }
        };
        let nlines = self.line_starts.len();
        assert(line_idx < nlines);
        ((line_idx + 1) as u64, column)
    }
}

/// The index of the last entry at most `x` of a strictly increasing
/// sequence whose first entry is at most `x`.
fn last_at_most(s: &Vec<usize>, x: usize) -> (r: usize)
    requires
        s@.len() >= 1,
        s@[0] <= x,
        strictly_increasing(s@),
    ensures
        r < s@.len(),
        r == count_at_most(s@, x as int) - 1,
{
    let mut lo: usize = 0;
    let mut hi: usize = s.len();
    while lo + 1 < hi
        invariant
            0 <= lo < hi <= s@.len(),
            s@[lo as int] <= x,
            hi < s@.len() ==> s@[hi as int] > x,
            strictly_increasing(s@),
        decreases hi - lo,
    {
        let mid = lo + (hi - lo) / 2;
        if s[mid] <= x {
            lo = mid;
        } else {
            hi = mid;
        }
    }
    proof {
        lemma_count_at_most_sorted(s@, x as int, lo as int);
    }
    lo
}

proof fn lemma_count_at_most_sorted(s: Seq<usize>, x: int, k: int)
    requires
        0 <= k < s.len(),
        s[k] <= x,
        k + 1 < s.len() ==> s[k + 1] > x,
        strictly_increasing(s),
    ensures
        count_at_most(s, x) == k + 1,
    decreases s.len(),
{
    if k + 1 < s.len() {
        lemma_count_at_most_sorted(s.drop_last(), x, k);
        assert(s.last() > x) by {
            if k + 1 < s.len() - 1 {
                assert(s[k + 1] < s[s.len() - 1]);
            }
        }
    } else {
        lemma_count_at_most_prefix_all(s.drop_last(), x);
    }
}

proof fn lemma_count_at_most_prefix_bound(s: Seq<usize>, x: int, k: int)
    requires
        0 <= k < s.len(),
        k == count_at_most(s, x) - 1,
        s[0] <= x,
        strictly_increasing(s),
    ensures
        s[k] <= x,
    decreases s.len(),
{
    if s.last() <= x {
        lemma_count_at_most_bound(s.drop_last(), x);
        if k < s.len() - 1 {
            assert(s[k] < s.last());
        }
    } else {
        lemma_count_at_most_bound(s.drop_last(), x);
        assert(s.drop_last()[0] == s[0]);
        lemma_count_at_most_prefix_bound(s.drop_last(), x, k);
    }
}

proof fn lemma_count_at_most_bound(s: Seq<usize>, x: int)
    ensures
        count_at_most(s, x) <= s.len(),
    decreases s.len(),
{
    if s.len() > 0 {
        lemma_count_at_most_bound(s.drop_last(), x);
    }
}

proof fn lemma_count_at_most_prefix_all(s: Seq<usize>, x: int)
    requires
        forall|i: int| 0 <= i < s.len() ==> #[trigger] s[i] <= x,
    ensures
        count_at_most(s, x) == s.len(),
    decreases s.len(),
{
    if s.len() > 0 {
        lemma_count_at_most_prefix_all(s.drop_last(), x);
    }
}

/// `std::str::from_utf8`, the error dropped.
#[verifier::external_body]
fn utf8_str(bytes: &[u8]) -> (r: Option<&str>)
    ensures
        r is Some <==> valid_utf8(bytes@),
        r matches Some(s) ==> s@ == decode_utf8(bytes@) && s.spec_bytes() == bytes@,
{
    std::str::from_utf8(bytes).ok()
}

/// How many UTF-16 code units a string takes, for a string whose UTF-8
/// form fits in memory.
fn utf16_count(s: &str) -> (r: u64)
    requires
        s.spec_bytes().len() <= usize::MAX,
    ensures
        r == (utf16_len(s@) as u64),
{
    let ghost nbytes = s.spec_bytes().len();
    proof {
        lemma_encode_utf8_len(s@);
    }
    let mut n: u128 = 0;
    for c in it: s.chars()
        invariant
            it.seq() == s@,
            s@.len() <= nbytes,
            n == utf16_len(s@.take(it.index() as int)),
            n <= 2 * it.index(),
            nbytes <= usize::MAX,
    {
        assert(s@.take(it.index() + 1).drop_last() =~= s@.take(it.index() as int));
        assert(s@[it.index() as int] == c);
        assert(s@.take(it.index() + 1).last() == c);
        if c >= '\u{10000}' {
            n = n + 2;
        } else {
            n = n + 1;
        }
    }
    assert(s@.take(s@.len() as int) =~= s@);
    n as u64
}

/// How many UTF-16 code units a string takes (JavaScript's `length`).
pub fn utf16_length(s: &str) -> (r: u128)
    ensures
        r == utf16_len(s@),
{
    let bytes = s.as_bytes();
    let nbytes = bytes.len();
    proof {
        lemma_encode_utf8_len(s@);
        assert(s@.len() <= nbytes);
    }
    let mut n: u128 = 0;
    for c in it: s.chars()
        invariant
            it.seq() == s@,
            s@.len() <= nbytes,
            n == utf16_len(s@.take(it.index() as int)),
            n <= 2 * it.index(),
    {
        assert(s@.take(it.index() + 1).drop_last() =~= s@.take(it.index() as int));
        assert(s@[it.index() as int] == c);
        assert(s@.take(it.index() + 1).last() == c);
        if c >= '\u{10000}' {
            n = n + 2;
        } else {
            n = n + 1;
        }
    }
    assert(s@.take(s@.len() as int) =~= s@);
    n
}

/// The 1-based line and the column of a byte offset in a source, as a
/// `LineTable` of the source gives them.
pub open spec fn source_position(bytes: Seq<u8>, offset: int) -> (u64, u64) {
    let starts = line_starts_of(bytes);
    let ascii = ascii_flags_of(bytes);
    let off = if offset < bytes.len() {
        offset
    } else {
        bytes.len() as int
    };
    let line_idx = count_at_most(starts, off) - 1;
    let start = starts[line_idx] as int;
    let prefix = bytes.subrange(start, off);
    let column = if ascii[line_idx] {
        off - start
    } else if valid_utf8(prefix) {
        utf16_len(decode_utf8(prefix)) as int
    } else {
        off - start
    };
    ((line_idx + 1) as u64, column as u64)
}

/// A JSON number written for a count: its digits, and the count itself.
pub open spec fn is_count(v: JsonValue, n: u64) -> bool {
    match v {
        JsonValue::Number(num) => {
            &&& num.js_text@ == decimal(n as nat)
            &&& num.json_text@ == decimal(n as nat)
            &&& num.truncated == (if n <= i64::MAX {
                n as i64
            } else {
                i64::MAX
            })
            &&& num.as_u64 == Some(n)
        },
        _ => false,
    }
}

/// `{ "line": line, "column": column }`.
pub open spec fn is_point(v: JsonValue, p: Position) -> bool {
    match v {
        JsonValue::Object(fields) => {
            &&& fields@.len() == 2
            &&& fields@[0].0@ == "line"@
            &&& is_count(fields@[0].1, p.line)
            &&& fields@[1].0@ == "column"@
            &&& is_count(fields@[1].1, p.column)
        },
        _ => false,
    }
}

/// `{ "start": start point, "end": end point }`.
pub open spec fn is_loc(v: JsonValue, l: SourceLocation) -> bool {
    match v {
        JsonValue::Object(fields) => {
            &&& fields@.len() == 2
            &&& fields@[0].0@ == "start"@
            &&& is_point(fields@[0].1, l.start)
            &&& fields@[1].0@ == "end"@
            &&& is_point(fields@[1].1, l.end)
        },
        _ => false,
    }
}

/// The start and end offsets of an object that is a node: one with a
/// string `type` and unsigned `start` and `end`.
pub open spec fn node_span(fields: Seq<(String, JsonValue)>) -> Option<(u64, u64)> {
    match (field_value(fields, "type"@), field_value(fields, "start"@), field_value(fields, "end"@)) {
        (Some(JsonValue::String(_, _)), Some(s), Some(e)) => match (spec_as_u64(s), spec_as_u64(e)) {
            (Some(start), Some(end)) => Some((start, end)),
            _ => None,
        },
        _ => None,
    }
}

/// The location given to a node of a source: the positions of its offsets.
pub open spec fn node_loc(fields: Seq<(String, JsonValue)>, bytes: Seq<u8>) -> Option<SourceLocation> {
    match node_span(fields) {
        Some((s, e)) => {
            let (sl, sc) = source_position(bytes, s as int);
            let (el, ec) = source_position(bytes, e as int);
            Some(SourceLocation { start: Position { line: sl, column: sc }, end: Position { line: el, column: ec } })
        },
        None => None,
    }
}

/// `new` is `old` with a `loc` field given to every node of it, at every
/// depth: an existing `loc` field of a node is overwritten where it stands,
/// else `loc` is appended to the node's fields.
pub open spec fn injected(old: JsonValue, new: JsonValue, bytes: Seq<u8>) -> bool
    decreases old,
{
    match old {
        JsonValue::Object(f) => match new {
            JsonValue::Object(g) => fields_injected(f@, g@, bytes),
            _ => false,
        },
        JsonValue::Array(a) => match new {
            JsonValue::Array(b) => a@.len() == b@.len() && forall|i: int|
                0 <= i < a@.len() ==> injected(#[trigger] a@[i], b@[i], bytes),
            _ => false,
        },
        _ => new == old,
    }
}

/// The fields `g` of an object are its fields `f` with the node's `loc`
/// set and every value injected.
pub open spec fn fields_injected(
    f: Seq<(String, JsonValue)>,
    g: Seq<(String, JsonValue)>,
    bytes: Seq<u8>,
) -> bool
    decreases f,
{
    let n = f.len();
    let slot = match node_loc(f, bytes) {
        Some(_) => field_index(f, "loc"@),
        None => None,
    };
    &&& g.len() == (if node_loc(f, bytes) is Some && slot is None {
        n + 1int
    } else {
        n as int
    })
    &&& forall|i: int|
        0 <= i < n ==> #[trigger] g[i].0@ == f[i].0@ && (slot != Some(i) ==> injected(
            f[i].1,
            g[i].1,
            bytes,
        ))
    &&& match node_loc(f, bytes) {
        Some(l) => match slot {
            Some(k) => is_loc(g[k].1, l),
            None => g[n as int].0@ == "loc"@ && is_loc(g[n as int].1, l),
        },
        None => true,
    }
}

/// A JSON number for a count.
fn count_value(n: u64) -> (r: JsonValue)
    ensures
        is_count(r, n),
{
    let mut js_text = String::new();
    push_decimal(&mut js_text, n);
    let mut json_text = String::new();
    push_decimal(&mut json_text, n);
    let truncated: i64 = if n <= 9223372036854775807u64 {
        n as i64
    } else {
        9223372036854775807i64
    };
    JsonValue::Number(JsonNumber { js_text, json_text, truncated, as_u64: Some(n) })
}

/// `{ "line": .., "column": .. }` for a position.
fn point_value(p: Position) -> (r: JsonValue)
    ensures
        is_point(r, p),
{
    let mut fields: Vec<(String, JsonValue)> = Vec::new();
    fields.push((to_string("line"), count_value(p.line)));
    fields.push((to_string("column"), count_value(p.column)));
    JsonValue::Object(fields)
}

/// `{ "start": .., "end": .. }` for a location.
fn loc_value(l: SourceLocation) -> (r: JsonValue)
    ensures
        is_loc(r, l),
{
    let mut fields: Vec<(String, JsonValue)> = Vec::new();
    fields.push((to_string("start"), point_value(l.start)));
    fields.push((to_string("end"), point_value(l.end)));
    JsonValue::Object(fields)
}

/// The position of a byte offset, which may lie past the source's end.
fn position_at(table: &LineTable, offset: u64) -> (r: Position)
    requires
        table.wf(),
    ensures
        (r.line, r.column) == source_position(table.bytes(), offset as int),
{
    let len = table.source.len();
    let off: usize = if offset < len as u64 {
        offset as usize
    } else {
        len
    };
    let (line, column) = table.position(off);
    Position { line, column }
}

/// The location of an object that is a node.
fn node_location(fields: &Vec<(String, JsonValue)>, table: &LineTable) -> (r: Option<SourceLocation>)
    requires
        table.wf(),
    ensures
        r == node_loc(fields@, table.bytes()),
{
    match (field_of(fields, "type"), field_of(fields, "start"), field_of(fields, "end")) {
        (Some(t), Some(s), Some(e)) => {
            if t.is_string() {
                match (as_u64(s), as_u64(e)) {
                    (Some(start), Some(end)) => Some(
                        SourceLocation { start: position_at(table, start), end: position_at(table, end) },
                    ),
                    _ => None,
                }
            } else {
                None
            }
        },
        _ => None,
    }
}

/// The fields of an object after its children were given their `loc`:
/// the same keys in the same order, each value injected.
pub open spec fn children_injected(
    f: Seq<(String, JsonValue)>,
    g: Seq<(String, JsonValue)>,
    bytes: Seq<u8>,
) -> bool {
    &&& g.len() == f.len()
    &&& forall|i: int|
        0 <= i < f.len() ==> #[trigger] g[i].0@ == f[i].0@ && injected(f[i].1, g[i].1, bytes)
}

/// Sets the `loc` field of an object that is a node.
fn place_loc(
    fields: Vec<(String, JsonValue)>,
    loc: Option<SourceLocation>,
    Ghost(f): Ghost<Seq<(String, JsonValue)>>,
    Ghost(bytes): Ghost<Seq<u8>>,
) -> (r: Vec<(String, JsonValue)>)
    requires
        children_injected(f, fields@, bytes),
        loc == node_loc(f, bytes),
    ensures
        fields_injected(f, r@, bytes),
{
    let mut g = fields;
    let ghost g0 = g@;
    let ghost slot = match node_loc(f, bytes) {
        Some(_) => field_index(f, "loc"@),
        None => None,
    };
    proof {
        lemma_field_index_same_keys(f, g@, "loc"@);
        lemma_field_index_bounds(f, "loc"@);
    }
    match loc {
        Some(l) => {
            let lv = loc_value(l);
            match find_field(&g, "loc") {
                Some(k) => {
                    g.set(k, (to_string("loc"), lv));
                    assert forall|i: int| 0 <= i < f.len() implies #[trigger] g@[i].0@ == f[i].0@
                        && (slot != Some(i) ==> injected(f[i].1, g@[i].1, bytes)) by {
                        assert(slot == Some(k as int));
                        if i != k {
                            assert(g@[i] == g0[i]);
                            assert(g0[i].0@ == f[i].0@ && injected(f[i].1, g0[i].1, bytes));
                        } else {
                            assert(f[i].0@ == "loc"@);
                        }
                    }
                    assert(g@.len() == f.len());
                    assert(is_loc(g@[k as int].1, l));
                    assert(node_loc(f, bytes) == Some(l));
                    assert(match node_loc(f, bytes) {
                        Some(l) => match slot {
                            Some(k) => is_loc(g@[k].1, l),
                            None => g@[f.len() as int].0@ == "loc"@ && is_loc(g@[f.len() as int].1, l),
                        },
                        None => true,
                    });
                    assert(fields_injected(f, g@, bytes));
                },
                None => {
                    g.push((to_string("loc"), lv));
                    assert forall|i: int| 0 <= i < f.len() implies #[trigger] g@[i].0@ == f[i].0@
                        && injected(f[i].1, g@[i].1, bytes) by {
                        assert(g@[i] == g0[i]);
                        assert(g0[i].0@ == f[i].0@ && injected(f[i].1, g0[i].1, bytes));
                    }
                    assert(slot is None);
                    assert(g@.len() == f.len() + 1);
                    assert(g@[f.len() as int].0@ == "loc"@);
                    assert(g@[f.len() as int].1 == lv);
                    assert(is_loc(g@[f.len() as int].1, l));
                    assert(fields_injected(f, g@, bytes));
                },
            }
        },
        None => {
            assert forall|i: int| 0 <= i < f.len() implies #[trigger] g@[i].0@ == f[i].0@
                && injected(f[i].1, g@[i].1, bytes) by {
                assert(g0[i].0@ == f[i].0@ && injected(f[i].1, g0[i].1, bytes));
            }
            assert(slot is None);
            assert(fields_injected(f, g@, bytes));
        },
    }
    g
}

/// Gives every node of a value its `loc`.
fn inject_value(value: JsonValue, table: &LineTable) -> (r: JsonValue)
    requires
        table.wf(),
    ensures
        injected(value, r, table.bytes()),
    decreases value,
{
    let ghost bytes = table.bytes();
    match value {
        JsonValue::Object(fields) => {
            let ghost gfields = fields;
            let ghost f = fields@;
            let loc = node_location(&fields, table);
            let mut rest = fields;
            let mut rev: Vec<(String, JsonValue)> = Vec::new();
            while rest.len() > 0
                invariant
                    table.wf(),
                    bytes == table.bytes(),
                    value == JsonValue::Object(gfields),
                    f == gfields@,
                    rest@ == f.take(rest@.len() as int),
                    rev@.len() + rest@.len() == f.len(),
                    forall|j: int|
                        0 <= j < rev@.len() ==> #[trigger] rev@[j].0@ == f[f.len() - 1 - j].0@
                            && injected(f[f.len() - 1 - j].1, rev@[j].1, bytes),
                decreases rest@.len(),
            {
                let ghost k = rest@.len() - 1;
                let (key, child) = rest.pop().unwrap();
                proof {
                    assert(value->Object_0 == gfields);
                    assert(decreases_to!(value => value->Object_0));
                    assert(decreases_to!(gfields => gfields@));
                    assert(decreases_to!(gfields@ => gfields@[k]));
                    assert(decreases_to!(gfields@[k] => gfields@[k].1));
                    assert(rest@ =~= f.take(rest@.len() as int));
                }
                let new_child = inject_value(child, table);
                rev.push((key, new_child));
            }
            let mut g: Vec<(String, JsonValue)> = Vec::new();
            while rev.len() > 0
                invariant
                    table.wf(),
                    bytes == table.bytes(),
                    value == JsonValue::Object(gfields),
                    f == gfields@,
                    g@.len() + rev@.len() == f.len(),
                    forall|j: int|
                        0 <= j < rev@.len() ==> #[trigger] rev@[j].0@ == f[f.len() - 1 - j].0@
                            && injected(f[f.len() - 1 - j].1, rev@[j].1, bytes),
                    forall|j: int|
                        0 <= j < g@.len() ==> #[trigger] g@[j].0@ == f[j].0@ && injected(
                            f[j].1,
                            g@[j].1,
                            bytes,
                        ),
                decreases rev@.len(),
            {
                let item = rev.pop().unwrap();
                g.push(item);
            }
            let g = place_loc(g, loc, Ghost(f), Ghost(bytes));
            let r = JsonValue::Object(g);
            assert(value->Object_0@ == f);
            assert(r->Object_0@ == g@);
            assert(injected(value, r, bytes));
            r
        },
        JsonValue::Array(items) => {
            let ghost gitems = items;
            let ghost a = items@;
            let mut rest = items;
            let mut rev: Vec<JsonValue> = Vec::new();
            while rest.len() > 0
                invariant
                    table.wf(),
                    bytes == table.bytes(),
                    value == JsonValue::Array(gitems),
                    a == gitems@,
                    rest@ == a.take(rest@.len() as int),
                    rev@.len() + rest@.len() == a.len(),
                    forall|j: int|
                        0 <= j < rev@.len() ==> injected(a[a.len() - 1 - j], #[trigger] rev@[j], bytes),
                decreases rest@.len(),
            {
                let ghost k = rest@.len() - 1;
                let child = rest.pop().unwrap();
                proof {
                    assert(value->Array_0 == gitems);
                    assert(decreases_to!(value => value->Array_0));
                    assert(decreases_to!(gitems => gitems@));
                    assert(decreases_to!(gitems@ => gitems@[k]));
                    assert(rest@ =~= a.take(rest@.len() as int));
                }
                let new_child = inject_value(child, table);
                rev.push(new_child);
            }
            let mut b: Vec<JsonValue> = Vec::new();
            while rev.len() > 0
                invariant
                    value == JsonValue::Array(gitems),
                    a == gitems@,
                    b@.len() + rev@.len() == a.len(),
                    forall|j: int|
                        0 <= j < rev@.len() ==> injected(a[a.len() - 1 - j], #[trigger] rev@[j], bytes),
                    forall|j: int| 0 <= j < b@.len() ==> injected(a[j], #[trigger] b@[j], bytes),
                decreases rev@.len(),
            {
                let item = rev.pop().unwrap();
                b.push(item);
            }
            JsonValue::Array(b)
        },
        other => other,
    }
}

/// Gives every node of a value a `loc` field: `{ start: { line, column },
/// end: { line, column } }`, the positions of its `start` and `end` offsets
/// in the table's source.
pub fn inject_loc(value: &mut JsonValue, table: &LineTable)
    requires
        table.wf(),
    ensures
        injected(*old(value), *final(value), table.bytes()),
{
    let mut v = JsonValue::Null;
    std::mem::swap(&mut v, value);
    *value = inject_value(v, table);
}

/// The statements of a program: its `body` array, or none when it has no
/// such field.
pub open spec fn spec_body(program: JsonValue) -> Seq<JsonValue> {
    match program.spec_get_array("body"@) {
        Some(items) => items,
        None => Seq::empty(),
    }
}

/// The statements of a parsed program of a source, every node in them given
/// its `loc` (see `inject_loc`).
pub fn program_body(program: JsonValue, source: &str) -> (r: Vec<JsonValue>)
    ensures
        r@.len() == spec_body(program).len(),
        forall|i: int|
            0 <= i < r@.len() ==> injected(#[trigger] spec_body(program)[i], r@[i], source.spec_bytes()),
{
    let table = LineTable::new(source);
    match program {
        JsonValue::Object(fields) => {
            let mut fields = fields;
            match find_field(&fields, "body") {
                Some(k) => {
                    proof {
                        lemma_field_index_bounds(fields@, "body"@);
                    }
                    let (_, value) = fields.remove(k);
                    match value {
                        JsonValue::Array(items) => {
                            match inject_value(JsonValue::Array(items), &table) {
                                JsonValue::Array(b) => b,
                                _ => Vec::new(),
                            }
                        },
                        _ => Vec::new(),
                    }
                },
                None => Vec::new(),
            }
        },
        _ => Vec::new(),
    }
}

/// A count reads back as its number.
proof fn lemma_count_reads(v: JsonValue, n: u64)
    requires
        is_count(v, n),
    ensures
        spec_as_u64(v) == Some(n),
{
}

/// A written point reads back as its position.
proof fn lemma_point_reads(v: JsonValue, p: Position)
    requires
        is_point(v, p),
    ensures
        spec_position(v) == Some(p),
{
    reveal_strlit("line");
    reveal_strlit("column");
    let fields = v->Object_0@;
    lemma_field_index_at(fields, "line"@, 0);
    assert(fields[0].0@ != "column"@) by {
        assert(fields[0].0@.len() != "column"@.len());
    }
    lemma_field_index_at(fields, "column"@, 1);
    lemma_count_reads(fields[0].1, p.line);
    lemma_count_reads(fields[1].1, p.column);
}

/// A written location reads back as itself.
pub proof fn lemma_loc_reads(v: JsonValue, l: SourceLocation)
    requires
        is_loc(v, l),
    ensures
        spec_location(v) == Some(l),
{
    reveal_strlit("start");
    reveal_strlit("end");
    let fields = v->Object_0@;
    lemma_field_index_at(fields, "start"@, 0);
    assert(fields[0].0@ != "end"@) by {
        assert(fields[0].0@.len() != "end"@.len());
    }
    lemma_field_index_at(fields, "end"@, 1);
    lemma_point_reads(fields[0].1, l.start);
    lemma_point_reads(fields[1].1, l.end);
}

/// After injection, a node's location, read from its `loc` field, is the
/// pair of positions of its `start` and `end` offsets in the source.
pub proof fn lemma_injected_node_location(old: JsonValue, new: JsonValue, bytes: Seq<u8>)
    requires
        injected(old, new, bytes),
    ensures
        old matches JsonValue::Object(f) ==> (node_loc(f@, bytes) is Some ==> spec_node_location(new)
            == node_loc(f@, bytes)),
{
    if let JsonValue::Object(fv) = old {
        let f = fv@;
        if let Some(l) = node_loc(f, bytes) {
            assert(fields_injected(f, new->Object_0@, bytes));
            let g = new->Object_0@;
            reveal_strlit("loc");
            match field_index(f, "loc"@) {
                Some(k) => {
                    lemma_field_index_same_keys(f, g, "loc"@);
                    lemma_loc_reads(g[k].1, l);
                },
                None => {
                    lemma_field_index_bounds(f, "loc"@);
                    assert forall|j: int| 0 <= j < f.len() implies #[trigger] g[j].0@ != "loc"@ by {
                        assert(g[j].0@ == f[j].0@);
                    }
                    lemma_field_index_at(g, "loc"@, f.len() as int);
                    lemma_loc_reads(g[f.len() as int].1, l);
                },
            }
        }
    }
}

/// The column of a byte offset counted without the ASCII fast path: the
/// UTF-16 length of the decoded line prefix, or its byte length when the
/// prefix is no valid UTF-8.
pub open spec fn general_column(bytes: Seq<u8>, offset: int) -> u64 {
    let starts = line_starts_of(bytes);
    let off = if offset < bytes.len() {
        offset
    } else {
        bytes.len() as int
    };
    let line_idx = count_at_most(starts, off) - 1;
    let start = starts[line_idx] as int;
    let prefix = bytes.subrange(start, off);
    (if valid_utf8(prefix) {
        utf16_len(decode_utf8(prefix)) as int
    } else {
        off - start
    }) as u64
}

/// Past the entries at most `x` of an increasing sequence, the next entry
/// is above `x`.
proof fn lemma_count_at_most_next(s: Seq<usize>, x: int)
    requires
        strictly_increasing(s),
    ensures
        count_at_most(s, x) < s.len() ==> s[count_at_most(s, x) as int] > x,
    decreases s.len(),
{
    if s.len() > 0 {
        let t = s.drop_last();
        assert(strictly_increasing(t)) by {
            assert forall|i: int, j: int| 0 <= i < j < t.len() implies t[i] < t[j] by {
                assert(s[i] < s[j]);
            }
        }
        lemma_count_at_most_next(t, x);
        lemma_count_at_most_bound(t, x);
        let c = count_at_most(t, x);
        if s.last() <= x {
            if c < t.len() {
                assert(t[c as int] < s.last());
            }
        } else {
            if c < t.len() {
                assert(s[c as int] == t[c as int]);
            }
        }
    }
}

/// Every byte of an ASCII line, its newline included, is below 128.
proof fn lemma_ascii_line(b: Seq<u8>, i: int, k: int)
    requires
        b.len() <= usize::MAX,
        0 <= i < ascii_flags_of(b).len(),
        ascii_flags_of(b)[i],
        line_starts_of(b)[i] <= k < b.len(),
        i + 1 < line_starts_of(b).len() ==> k < line_starts_of(b)[i + 1],
    ensures
        b[k] < 128,
    decreases b.len(),
{
    lemma_line_starts(b);
    let t = b.drop_last();
    lemma_line_starts(t);
    let n = b.len() as int;
    let starts = line_starts_of(b);
    let prev_starts = line_starts_of(t);
    let prev_flags = ascii_flags_of(t);
    if k < n - 1 {
        assert(b[k] == t[k]);
        if b.last() == 10 {
            if i == prev_flags.len() {
                assert(starts[i] == n);
            } else {
                assert(prev_flags[i]);
                assert(prev_starts[i] == starts[i]);
                if i + 1 < prev_starts.len() {
                    assert(prev_starts[i + 1] == starts[i + 1]);
                }
                lemma_ascii_line(t, i, k);
            }
        } else if b.last() >= 128 {
            assert(prev_flags[i]);
            lemma_ascii_line(t, i, k);
        } else {
            lemma_ascii_line(t, i, k);
        }
    } else {
        if b.last() >= 128 {
            let last = prev_flags.len() - 1;
            if i < last {
                assert(prev_starts[i + 1] <= t.len());
            }
            assert(i == last);
            assert(!ascii_flags_of(b)[i]);
        }
    }
}

/// ASCII bytes are valid UTF-8, each decoding to one character below
/// U+0080.
proof fn lemma_ascii_decode(p: Seq<u8>)
    requires
        forall|k: int| 0 <= k < p.len() ==> #[trigger] p[k] < 128,
    ensures
        valid_utf8(p),
        decode_utf8(p).len() == p.len(),
        forall|k: int| 0 <= k < p.len() ==> (#[trigger] decode_utf8(p)[k] as int) < 0x80,
    decreases p.len(),
{
    if p.len() > 0 {
        let b = p[0];
        assert(b & 0x7f == b) by (bit_vector)
            requires
                b < 128,
        ;
        let rest = p.subrange(1, p.len() as int);
        assert(pop_first_scalar(p) == rest);
        assert forall|k: int| 0 <= k < rest.len() implies #[trigger] rest[k] < 128 by {
            assert(rest[k] == p[k + 1]);
        }
        lemma_ascii_decode(rest);
        let d = decode_utf8(p);
        assert(d == seq![b as u32 as char] + decode_utf8(rest));
        assert forall|k: int| 0 <= k < p.len() implies (#[trigger] d[k] as int) < 0x80 by {
            if k > 0 {
                assert(d[k] == decode_utf8(rest)[k - 1]);
            }
        }
    }
}

/// Characters below U+10000 take one UTF-16 code unit each.
proof fn lemma_utf16_len_bmp(s: Seq<char>)
    requires
        forall|k: int| 0 <= k < s.len() ==> (#[trigger] s[k] as int) < 0x10000,
    ensures
        utf16_len(s) == s.len(),
    decreases s.len(),
{
    if s.len() > 0 {
        assert forall|k: int| 0 <= k < s.drop_last().len() implies (#[trigger] s.drop_last()[k] as int)
            < 0x10000 by {
            assert(s.drop_last()[k] == s[k]);
        }
        lemma_utf16_len_bmp(s.drop_last());
        assert((s.last() as int) < 0x10000);
    }
}

/// The ASCII fast path changes no column: on every line, the column of an
/// offset is the UTF-16 length of the decoded line prefix (or its byte
/// length when the prefix is no valid UTF-8).
pub proof fn lemma_ascii_fast_path(bytes: Seq<u8>, offset: int)
    requires
        bytes.len() <= usize::MAX,
        0 <= offset,
    ensures
        source_position(bytes, offset).1 == general_column(bytes, offset),
{
    let starts = line_starts_of(bytes);
    let ascii = ascii_flags_of(bytes);
    let off = if offset < bytes.len() {
        offset
    } else {
        bytes.len() as int
    };
    lemma_line_starts(bytes);
    lemma_count_at_most_bound(starts, off);
    let line_idx = count_at_most(starts, off) - 1;
    assert(starts[0] <= off);
    assert(count_at_most(starts, off) >= 1) by {
        if count_at_most(starts, off) == 0 {
            lemma_count_at_most_next(starts, off);
        }
    }
    lemma_count_at_most_prefix_bound(starts, off, line_idx);
    lemma_count_at_most_next(starts, off);
    let start = starts[line_idx] as int;
    let prefix = bytes.subrange(start, off);
    if ascii[line_idx] {
        assert forall|k: int| 0 <= k < prefix.len() implies #[trigger] prefix[k] < 128 by {
            assert(prefix[k] == bytes[start + k]);
            lemma_ascii_line(bytes, line_idx, start + k);
        }
        lemma_ascii_decode(prefix);
        lemma_utf16_len_bmp(decode_utf8(prefix));
    }
}

/// The line feeds among the bytes.
pub open spec fn newlines(b: Seq<u8>) -> nat
    decreases b.len(),
{
    if b.len() == 0 {
        0
    } else {
        newlines(b.drop_last()) + if b.last() == 10 {
            1nat
        } else {
            0nat
        }
    }
}

/// A line starts at 0 and after each line feed: the lines that start at or
/// before `x` are one more than the line feeds before `x`.
proof fn lemma_lines_before(b: Seq<u8>, x: int)
    requires
        b.len() <= usize::MAX,
        0 <= x <= b.len(),
    ensures
        count_at_most(line_starts_of(b), x) == 1 + newlines(b.take(x)),
    decreases b.len(),
{
    if b.len() == 0 {
        assert(b.take(x) =~= b);
        let s0 = line_starts_of(b);
        assert(s0 == seq![0usize]);
        assert(s0.drop_last() =~= Seq::<usize>::empty());
        assert(count_at_most(s0, x) == count_at_most(s0.drop_last(), x) + 1);
    } else {
        let t = b.drop_last();
        let n = b.len() as int;
        let prev = line_starts_of(t);
        lemma_line_starts(t);
        if b.last() == 10 {
            assert(line_starts_of(b) == prev.push(n as usize));
            assert(prev.push(n as usize).drop_last() =~= prev);
        } else {
            assert(line_starts_of(b) == prev);
        }
        if x < n {
            lemma_lines_before(t, x);
            assert(t.take(x) =~= b.take(x));
            if b.last() == 10 {
                assert(count_at_most(prev.push(n as usize), x) == count_at_most(prev, x));
            }
        } else {
            lemma_lines_before(t, n - 1);
            assert(t.take(n - 1) =~= t);
            assert(b.take(x) =~= b);
            assert(newlines(b) == newlines(t) + if b.last() == 10 {
                1nat
            } else {
                0nat
            });
            lemma_count_at_most_prefix_all(prev, n - 1);
            lemma_count_at_most_prefix_all(prev, n);
            if b.last() == 10 {
                assert(count_at_most(prev.push(n as usize), n) == count_at_most(prev, n) + 1);
            }
        }
    }
}

/// In strictly increasing starts, the one at `j` is the last at or before
/// its own value.
proof fn lemma_count_at_element(s: Seq<usize>, j: int)
    requires
        strictly_increasing(s),
        0 <= j < s.len(),
    ensures
        count_at_most(s, s[j] as int) == j + 1,
    decreases s.len(),
{
    let t = s.drop_last();
    assert(strictly_increasing(t)) by {
        assert forall|a: int, c: int| 0 <= a < c < t.len() implies t[a] < t[c] by {
            assert(s[a] < s[c]);
        }
    }
    if j == s.len() - 1 {
        assert forall|a: int| 0 <= a < t.len() implies #[trigger] t[a] <= s[j] as int by {
            assert(s[a] < s[j]);
        }
        lemma_count_at_most_prefix_all(t, s[j] as int);
    } else {
        assert(t[j] == s[j]);
        lemma_count_at_element(t, j);
        assert(s[j] < s.last());
    }
}

/// A line starts right after each line feed.
proof fn lemma_start_after_newline(b: Seq<u8>, i: int)
    requires
        b.len() <= usize::MAX,
        0 <= i < b.len(),
        b[i] == 10,
    ensures
        exists|j: int| 0 <= j < line_starts_of(b).len() && line_starts_of(b)[j] == i + 1,
    decreases b.len(),
{
    let t = b.drop_last();
    let n = b.len() as int;
    if i == n - 1 {
        let starts = line_starts_of(b);
        assert(starts == line_starts_of(t).push(n as usize));
        assert(starts[starts.len() - 1] == i + 1);
        assert(0 <= starts.len() - 1 < line_starts_of(b).len() && line_starts_of(b)[starts.len() - 1] == i + 1);
    } else {
        assert(t[i] == b[i]);
        lemma_start_after_newline(t, i);
        let j = choose|j: int| 0 <= j < line_starts_of(t).len() && line_starts_of(t)[j] == i + 1;
        if b.last() == 10 {
            assert(line_starts_of(b) == line_starts_of(t).push(n as usize));
            assert(line_starts_of(b)[j] == line_starts_of(t)[j]);
        } else {
            assert(line_starts_of(b) == line_starts_of(t));
        }
        assert(0 <= j < line_starts_of(b).len() && line_starts_of(b)[j] == i + 1);
    }
}

/// A line feed belongs to its own line, the one after the line feeds
/// before it; the byte after it starts the next line, at column 0.
pub proof fn lemma_newline_position(b: Seq<u8>, i: int)
    requires
        b.len() < usize::MAX,
        0 <= i < b.len(),
        b[i] == 10,
    ensures
        source_position(b, i).0 == newlines(b.take(i)) + 1,
        source_position(b, i + 1) == ((newlines(b.take(i)) + 2) as u64, 0u64),
{
    lemma_line_starts(b);
    let starts = line_starts_of(b);
    lemma_lines_before(b, i);
    lemma_lines_before(b, i + 1);
    assert(b.take(i + 1).drop_last() =~= b.take(i));
    lemma_count_at_most_bound(starts, i);
    lemma_count_at_most_bound(starts, i + 1);
    assert(newlines(b.take(i)) <= i) by {
        lemma_newlines_bound(b.take(i));
    }
    lemma_start_after_newline(b, i);
    let j = choose|j: int| 0 <= j < starts.len() && starts[j] == i + 1;
    lemma_count_at_element(starts, j);
    let prefix = b.subrange(i + 1, i + 1);
    assert(prefix =~= Seq::<u8>::empty());
    assert(valid_utf8(prefix));
    assert(decode_utf8(prefix) =~= Seq::<char>::empty());
}

proof fn lemma_newlines_bound(b: Seq<u8>)
    ensures
        newlines(b) <= b.len(),
    decreases b.len(),
{
    if b.len() > 0 {
        lemma_newlines_bound(b.drop_last());
    }
}

} // verus!
