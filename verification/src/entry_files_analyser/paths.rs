//! Lexical path arithmetic on the components of a path: `path.normalize`
//! and `path.relative` without touching the filesystem.

use vstd::prelude::*;

use crate::text::{join, join_seq, to_string, view_strings};

verus! {

/// The kind of a path component.
#[derive(Debug, Clone, Copy, PartialEq, Eq, Structural)]
pub enum PartKind {
    /// A Windows path prefix such as `C:`.
    Prefix,
    /// The root directory.
    RootDir,
    /// `.`
    CurDir,
    /// `..`
    ParentDir,
    /// A file or directory name.
    Normal,
}

/// A path component: its kind and its text.
pub struct PathPart {
    pub kind: PartKind,
    pub text: String,
}

/// The components' kinds and texts.
pub open spec fn view_parts(parts: Seq<PathPart>) -> Seq<(PartKind, Seq<char>)> {
    parts.map_values(|p: PathPart| (p.kind, p.text@))
}

/// Components as `Path::components` gives them on every platform: none has
/// an empty text, `.` is the text of a `CurDir` and `..` that of a
/// `ParentDir`.
pub open spec fn parts_wf(parts: Seq<(PartKind, Seq<char>)>) -> bool {
    forall|i: int|
        0 <= i < parts.len() ==> {
            &&& (#[trigger] parts[i]).1.len() > 0
            &&& parts[i].0 == PartKind::CurDir ==> parts[i].1 == seq!['.']
            &&& parts[i].0 == PartKind::ParentDir ==> parts[i].1 == seq!['.', '.']
        }
}

/// The components of a path, as `Path::components` parses it on this
/// platform. Which components a path has depends on the platform's syntax;
/// what is stated is what its documentation gives on every platform: no
/// component is empty, `CurDir` reads `.` and `ParentDir` reads `..`.
#[verifier::external_body]
pub(crate) fn path_parts(path: &str) -> (r: Vec<PathPart>)
    ensures
        parts_wf(view_parts(r@)),
{
    let mut parts = Vec::new();
    for c in std::path::Path::new(path).components() {
        let kind = match c {
            std::path::Component::Prefix(_) => PartKind::Prefix,
            std::path::Component::RootDir => PartKind::RootDir,
            std::path::Component::CurDir => PartKind::CurDir,
            std::path::Component::ParentDir => PartKind::ParentDir,
            std::path::Component::Normal(_) => PartKind::Normal,
        };
        parts.push(PathPart { kind, text: c.as_os_str().to_string_lossy().into_owned() });
    }
    parts
}

/// The path made of the components' texts, as `PathBuf::from_iter` pushes
/// them onto an empty path on this platform. No component gives the empty
/// path; one component gives its own text (pushing onto an empty path adds
/// no separator, and an absolute one replaces nothing). How two or more are
/// put together is not stated: the separator, and how roots and prefixes
/// replace what came before, depend on the platform.
#[verifier::external_body]
pub(crate) fn path_from_parts(parts: &Vec<PathPart>) -> (r: String)
    ensures
        parts@.len() == 0 ==> r@.len() == 0,
        parts@.len() == 1 ==> r@ == parts@[0].text@,
{
    parts.iter().map(|p| p.text.as_str()).collect::<std::path::PathBuf>().to_string_lossy().into_owned()
}

/// The platform's path separator (`std::path::MAIN_SEPARATOR_STR`): which
/// character it is depends on the platform; it is one character.
#[verifier::external_body]
pub(crate) fn main_separator() -> (r: String)
    ensures
        r@.len() == 1,
{
    std::path::MAIN_SEPARATOR_STR.to_owned()
}

/// The kept components after one more: `.` is dropped, and `..` drops the
/// name before it.
pub open spec fn normalize_part(out: Seq<(PartKind, Seq<char>)>, part: (PartKind, Seq<char>)) -> Seq<
    (PartKind, Seq<char>),
> {
    if part.0 == PartKind::CurDir {
        out
    } else if part.0 == PartKind::ParentDir && out.len() > 0 && out.last().0 == PartKind::Normal {
        out.drop_last()
    } else {
        out.push(part)
    }
}

/// The kept components after all of `parts`.
pub open spec fn spec_normalize_parts(parts: Seq<(PartKind, Seq<char>)>) -> Seq<(PartKind, Seq<char>)>
    decreases parts.len(),
{
    if parts.len() == 0 {
        Seq::empty()
    } else {
        normalize_part(spec_normalize_parts(parts.drop_last()), parts.last())
    }
}

fn copy_part(p: &PathPart) -> (r: PathPart)
    ensures
        r.kind == p.kind,
        r.text@ == p.text@,
{
    PathPart { kind: p.kind, text: p.text.clone() }
}

/// `path.normalize` on components: drops each `.` and resolves each `..`
/// against the name before it.
pub fn normalize_parts(parts: &Vec<PathPart>) -> (r: Vec<PathPart>)
    ensures
        view_parts(r@) == spec_normalize_parts(view_parts(parts@)),
{
    let ghost all = view_parts(parts@);
    let mut out: Vec<PathPart> = Vec::new();
    proof {
        assert(view_parts(out@) =~= Seq::<(PartKind, Seq<char>)>::empty());
        assert(all.take(0) =~= Seq::<(PartKind, Seq<char>)>::empty());
    }
    let mut i: usize = 0;
    while i < parts.len()
        invariant
            all == view_parts(parts@),
            0 <= i <= parts@.len(),
            view_parts(out@) == spec_normalize_parts(all.take(i as int)),
        decreases parts.len() - i,
    {
        let ghost before = view_parts(out@);
        proof {
            assert(all.take(i + 1).drop_last() =~= all.take(i as int));
            assert(all.take(i + 1).last() == all[i as int]);
        }
        let kind = parts[i].kind;
        if kind == PartKind::CurDir {
        } else if kind == PartKind::ParentDir && out.len() > 0 && out[out.len() - 1].kind
            == PartKind::Normal {
            let _ = out.pop();
            proof {
                assert(view_parts(out@) =~= before.drop_last());
            }
        } else {
            out.push(copy_part(&parts[i]));
            proof {
                assert(view_parts(out@) =~= before.push(all[i as int]));
            }
        }
        i = i + 1;
    }
    proof {
        assert(all.take(parts@.len() as int) =~= all);
    }
    out
}

/// Normalizing keeps only components given, so their texts stay non-empty.
proof fn lemma_normalize_keeps_text(p: Seq<(PartKind, Seq<char>)>)
    requires
        parts_wf(p),
    ensures
        parts_wf(spec_normalize_parts(p)),
    decreases p.len(),
{
    if p.len() > 0 {
        let init = p.drop_last();
        assert(parts_wf(init)) by {
            assert forall|i: int| 0 <= i < init.len() implies {
                &&& (#[trigger] init[i]).1.len() > 0
                &&& init[i].0 == PartKind::CurDir ==> init[i].1 == seq!['.']
                &&& init[i].0 == PartKind::ParentDir ==> init[i].1 == seq!['.', '.']
            } by {
                assert(init[i] == p[i]);
            }
        }
        lemma_normalize_keeps_text(init);
        let out = spec_normalize_parts(init);
        let last = p.last();
        assert(p[p.len() - 1] == last);
        let n = normalize_part(out, last);
        assert forall|i: int| 0 <= i < n.len() implies {
            &&& (#[trigger] n[i]).1.len() > 0
            &&& n[i].0 == PartKind::CurDir ==> n[i].1 == seq!['.']
            &&& n[i].0 == PartKind::ParentDir ==> n[i].1 == seq!['.', '.']
        } by {
            if i < out.len() {
                assert(n[i] == out[i]);
            } else {
                assert(n[i] == last);
            }
        }
    }
}

/// `path.normalize` without touching the filesystem: `.` components
/// dropped, `..` resolved against the name before it, `.` for nothing left.
/// The components are the platform's; of the normalized ones, none gives
/// `.` and one gives its own text.
pub fn normalize_path(path: &str) -> (r: String)
    ensures
        r@.len() > 0,
        exists|p: Seq<(PartKind, Seq<char>)>|
            #![trigger spec_normalize_parts(p)]
            parts_wf(p) && (spec_normalize_parts(p).len() == 0 ==> r@ == seq!['.']) && (
            spec_normalize_parts(p).len() == 1 ==> r@ == spec_normalize_parts(p)[0].1),
{
    let parts = path_parts(path);
    let kept = normalize_parts(&parts);
    let result = path_from_parts(&kept);
    proof {
        let p = view_parts(parts@);
        lemma_normalize_keeps_text(p);
        if spec_normalize_parts(p).len() == 1 {
            assert(view_parts(kept@)[0] == (kept@[0].kind, kept@[0].text@));
        }
        assert(spec_normalize_parts(p) == spec_normalize_parts(p));
    }
    if result.as_str().is_empty() {
        proof {
            reveal_strlit(".");
        }
        to_string(".")
    } else {
        result
    }
}

/// How many components the two lists share from the start.
pub open spec fn common_len(a: Seq<(PartKind, Seq<char>)>, b: Seq<(PartKind, Seq<char>)>, n: int) -> bool {
    &&& 0 <= n <= a.len()
    &&& n <= b.len()
    &&& forall|i: int| 0 <= i < n ==> a[i] == b[i]
    &&& (n == a.len() || n == b.len() || a[n] != b[n])
}

/// The components of `path.relative(from, to)`: one `..` for each
/// component of `from` past the shared start, then the rest of `to`.
pub open spec fn spec_relative_parts(
    from: Seq<(PartKind, Seq<char>)>,
    to: Seq<(PartKind, Seq<char>)>,
    common: int,
) -> Seq<Seq<char>> {
    Seq::new((from.len() - common) as nat, |i: int| seq!['.', '.']) + to.skip(common).map_values(
        |p: (PartKind, Seq<char>)| p.1,
    )
}

/// The components of the way from `from` to `to`, and how many they share
/// from the start.
pub fn relative_parts(from: &Vec<PathPart>, to: &Vec<PathPart>) -> (r: (Vec<String>, usize))
    ensures
        common_len(view_parts(from@), view_parts(to@), r.1 as int),
        view_strings(r.0@) == spec_relative_parts(view_parts(from@), view_parts(to@), r.1 as int),
{
    let ghost f = view_parts(from@);
    let ghost t = view_parts(to@);
    let mut common: usize = 0;
    while common < from.len() && common < to.len() && from[common].kind == to[common].kind
        && crate::text::str_eq(from[common].text.as_str(), to[common].text.as_str())
        invariant
            f == view_parts(from@),
            t == view_parts(to@),
            0 <= common <= from@.len(),
            common <= to@.len(),
            forall|i: int| 0 <= i < common ==> f[i] == t[i],
        decreases from.len() - common,
    {
        assert(f[common as int] == t[common as int]);
        common = common + 1;
    }
    proof {
        if common < from@.len() && common < to@.len() {
            assert(f[common as int].0 == from@[common as int].kind);
            assert(f[common as int].1 == from@[common as int].text@);
        }
    }
    let mut parts: Vec<String> = Vec::new();
    let ups = from.len() - common;
    let mut k: usize = 0;
    while k < ups
        invariant
            0 <= k <= ups,
            view_strings(parts@) == Seq::new(k as nat, |i: int| seq!['.', '.']),
        decreases ups - k,
    {
        let ghost before = parts@;
        parts.push(to_string(".."));
        proof {
            reveal_strlit("..");
            assert(parts@.last()@ =~= seq!['.', '.']);
            crate::text::lemma_view_strings_push(before, parts@.last());
            assert(Seq::new((k + 1) as nat, |i: int| seq!['.', '.']) =~= Seq::new(
                k as nat,
                |i: int| seq!['.', '.'],
            ).push(seq!['.', '.']));
        }
        k = k + 1;
    }
    let ghost ups_view = view_strings(parts@);
    let mut j: usize = common;
    while j < to.len()
        invariant
            t == view_parts(to@),
            common <= j <= to@.len(),
            view_strings(parts@) == ups_view + t.subrange(common as int, j as int).map_values(
                |p: (PartKind, Seq<char>)| p.1,
            ),
        decreases to.len() - j,
    {
        let ghost before = parts@;
        parts.push(to[j].text.clone());
        proof {
            crate::text::lemma_view_strings_push(before, parts@.last());
            assert(t.subrange(common as int, j + 1).map_values(|p: (PartKind, Seq<char>)| p.1)
                =~= t.subrange(common as int, j as int).map_values(|p: (PartKind, Seq<char>)| p.1).push(
                t[j as int].1,
            ));
        }
        j = j + 1;
    }
    proof {
        assert(t.subrange(common as int, to@.len() as int) =~= t.skip(common as int));
    }
    (parts, common)
}

/// Two counts of shared leading components are one count.
pub proof fn lemma_common_len_unique(
    a: Seq<(PartKind, Seq<char>)>,
    b: Seq<(PartKind, Seq<char>)>,
    n: int,
    m: int,
)
    requires
        common_len(a, b, n),
        common_len(a, b, m),
    ensures
        n == m,
{
    if n < m {
        assert(a[n] == b[n]);
    } else if m < n {
        assert(a[m] == b[m]);
    }
}

/// The text of the way from the components `from` to the components `to`:
/// `.` when there is no step, else the steps joined with `separator`.
pub open spec fn spec_relative_text(
    from: Seq<(PartKind, Seq<char>)>,
    to: Seq<(PartKind, Seq<char>)>,
    separator: Seq<char>,
) -> Seq<char> {
    let common = choose|n: int| common_len(from, to, n);
    let parts = spec_relative_parts(from, to, common);
    if parts.len() == 0 {
        seq!['.']
    } else {
        join_seq(parts, separator)
    }
}

/// The way from the components `from_parts` to the components `to_parts`:
/// one `..` for each component of `from_parts` past the shared start, then
/// the rest of `to_parts`, joined with `separator`; `.` when there is no
/// step.
pub fn relative_text(from_parts: &Vec<PathPart>, to_parts: &Vec<PathPart>, separator: &str) -> (r: String)
    ensures
        r@ == spec_relative_text(view_parts(from_parts@), view_parts(to_parts@), separator@),
        common_len(
            view_parts(from_parts@),
            view_parts(to_parts@),
            choose|n: int| common_len(view_parts(from_parts@), view_parts(to_parts@), n),
        ),
{
    let (parts, common) = relative_parts(from_parts, to_parts);
    proof {
        let f = view_parts(from_parts@);
        let t = view_parts(to_parts@);
        let c = choose|n: int| common_len(f, t, n);
        lemma_common_len_unique(f, t, common as int, c);
    }
    if parts.len() == 0 {
        proof {
            reveal_strlit(".");
            assert("."@ =~= seq!['.']);
        }
        return to_string(".");
    }
    join(&parts, separator)
}

/// The text of a way between well-formed components is never empty.
pub proof fn lemma_relative_text_not_empty(
    from: Seq<(PartKind, Seq<char>)>,
    to: Seq<(PartKind, Seq<char>)>,
    separator: Seq<char>,
)
    requires
        parts_wf(to),
        common_len(from, to, choose|n: int| common_len(from, to, n)),
    ensures
        spec_relative_text(from, to, separator).len() > 0,
{
    let common = choose|n: int| common_len(from, to, n);
    let parts = spec_relative_parts(from, to, common);
    if parts.len() > 0 {
        let ups = Seq::new((from.len() - common) as nat, |i: int| seq!['.', '.']);
        let rest = to.skip(common).map_values(|p: (PartKind, Seq<char>)| p.1);
        assert(parts == ups + rest);
        if rest.len() > 0 {
            assert(parts.last() == rest.last());
            assert(to.skip(common)[rest.len() - 1] == to[common + rest.len() - 1]);
        } else {
            assert(parts.last() == ups.last());
        }
        lemma_join_seq_ends_with_last(parts, separator);
    }
}

/// A joined list ends with its last item.
pub proof fn lemma_join_seq_ends_with_last(list: Seq<Seq<char>>, separator: Seq<char>)
    requires
        list.len() > 0,
    ensures
        join_seq(list, separator).len() >= list.last().len(),
{
}

/// The way from well-formed components to themselves is `.`.
pub proof fn lemma_relative_text_same(parts: Seq<(PartKind, Seq<char>)>, separator: Seq<char>)
    ensures
        spec_relative_text(parts, parts, separator) == seq!['.'],
{
    assert(common_len(parts, parts, parts.len() as int));
    let c = choose|n: int| common_len(parts, parts, n);
    lemma_common_len_unique(parts, parts, c, parts.len() as int);
    assert(spec_relative_parts(parts, parts, c) =~= Seq::<Seq<char>>::empty());
}

/// `path.relative(from, to)` for two normalized paths: `..` for each
/// component of `from` past the shared start, then the rest of `to`, joined
/// with the platform's separator; `.` when the two are the same. Which
/// components the paths have, and which character separates them, are the
/// platform's; the result is `relative_text` of those.
pub fn relative_path(from: &str, to: &str) -> (r: String)
    ensures
        r@.len() > 0,
        from@ == to@ ==> r@ == seq!['.'],
        exists|f: Seq<(PartKind, Seq<char>)>, t: Seq<(PartKind, Seq<char>)>, separator: Seq<char>|
            #![trigger spec_relative_text(f, t, separator)]
            parts_wf(f) && parts_wf(t) && separator.len() == 1 && r@ == spec_relative_text(
                f,
                t,
                separator,
            ),
{
    let from_parts = path_parts(from);
    let separator = main_separator();
    let ghost f = view_parts(from_parts@);
    if crate::text::str_eq(from, to) {
        let r = relative_text(&from_parts, &from_parts, separator.as_str());
        proof {
            lemma_relative_text_same(f, separator@);
        }
        return r;
    }
    let to_parts = path_parts(to);
    let r = relative_text(&from_parts, &to_parts, separator.as_str());
    proof {
        lemma_relative_text_not_empty(f, view_parts(to_parts@), separator@);
    }
    r
}

/// `Path::is_absolute`. Nothing is stated of it: what makes a path absolute
/// depends on the platform.
#[verifier::external_body]
pub(crate) fn path_is_absolute(path: &str) -> (r: bool) {
    std::path::Path::new(path).is_absolute()
}

/// `Path::join`. Nothing is stated of it: the separator depends on the
/// platform.
#[verifier::external_body]
pub(crate) fn path_join(base: &str, path: &str) -> (r: String) {
    std::path::Path::new(base).join(path).to_string_lossy().into_owned()
}

/// An entry file as analysed: normalized, and, where a root is given and
/// the path is relative, taken under the root.
pub fn normalize_and_clean_entry_file(file: &str, root_path: Option<&str>) -> (r: String)
    ensures
        r@.len() > 0,
{
    let normalized = normalize_path(file);
    match root_path {
        Some(root) => {
            if path_is_absolute(normalized.as_str()) {
                normalized
            } else {
                let joined = path_join(root, normalized.as_str());
                normalize_path(joined.as_str())
            }
        },
        None => normalized,
    }
}

/// The name of a file in reports: relative to the root where one is given,
/// else the path itself.
pub fn get_relative_file_path(file: &str, root_path: Option<&str>) -> (r: String)
    ensures
        root_path is None ==> r@ == file@,
        root_path matches Some(root) ==> r@.len() > 0 && (root@ == file@ ==> r@ == seq!['.']),
{
    match root_path {
        Some(root) => relative_path(root, file),
        None => to_string(file),
    }
}

} // verus!
