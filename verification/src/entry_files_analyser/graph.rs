//! The dependency graph of the analysed files: named vertices in the order
//! they were added, each with the targets of its edges, and the depth-first
//! walks that list a vertex's descendants and find the cycles.

use vstd::prelude::*;

use indexmap::IndexMap;

use crate::collections::{
    key_index, lemma_key_index, name_list_contains_key, name_list_entries, name_list_get,
    name_list_insert, name_list_new,
};
use crate::text::{clone_strings, str_eq, strings_contain, to_string, view_strings};

verus! {

/// Whether some vertex of `g` is named `k`.
pub open spec fn has_key(g: Seq<(Seq<char>, Seq<Seq<char>>)>, k: Seq<char>) -> bool {
    key_index(g, k) is Some
}

/// The targets of the edges of vertex `k` (none where there is no such vertex).
pub open spec fn adj(g: Seq<(Seq<char>, Seq<Seq<char>>)>, k: Seq<char>) -> Seq<Seq<char>> {
    match key_index(g, k) {
        Some(i) => g[i].1,
        None => Seq::empty(),
    }
}

/// Whether `g` has an edge from `a` to `b`.
pub open spec fn is_adjacent(g: Seq<(Seq<char>, Seq<Seq<char>>)>, a: Seq<char>, b: Seq<char>) -> bool {
    has_key(g, a) && adj(g, a).contains(b)
}

/// The invariant of the graph: no two vertices share a name, and each edge
/// list holds each target once, never the vertex itself, and only vertices.
pub open spec fn graph_wf(g: Seq<(Seq<char>, Seq<Seq<char>>)>) -> bool {
    &&& forall|i: int, j: int| 0 <= i < j < g.len() ==> g[i].0 != g[j].0
    &&& forall|i: int| 0 <= i < g.len() ==> (#[trigger] g[i]).1.no_duplicates()
    &&& forall|i: int| 0 <= i < g.len() ==> !(#[trigger] g[i]).1.contains(g[i].0)
    &&& forall|i: int, m: int|
        0 <= i < g.len() && 0 <= m < g[i].1.len() ==> has_key(g, (#[trigger] g[i].1[m]))
}

/// The graph after `add_vertex(id)`: a new vertex without edges, last, unless
/// one of that name is there.
pub open spec fn with_vertex(g: Seq<(Seq<char>, Seq<Seq<char>>)>, id: Seq<char>) -> Seq<
    (Seq<char>, Seq<Seq<char>>),
> {
    if has_key(g, id) {
        g
    } else {
        g.push((id, Seq::empty()))
    }
}

/// The graph after `add_edge(from, to)`: the edge is added last to the list
/// of `from`, unless it would be a loop, `to` or `from` is no vertex, or the
/// edge is there.
pub open spec fn with_edge(g: Seq<(Seq<char>, Seq<Seq<char>>)>, from: Seq<char>, to: Seq<char>) -> Seq<
    (Seq<char>, Seq<Seq<char>>),
> {
    if from == to || !has_key(g, to) || !has_key(g, from) || adj(g, from).contains(to) {
        g
    } else {
        g.update(key_index(g, from)->0, (from, adj(g, from).push(to)))
    }
}

/// How many vertices of `g` are not in `visited`.
pub open spec fn unvisited(g: Seq<(Seq<char>, Seq<Seq<char>>)>, visited: Seq<Seq<char>>) -> nat
    decreases g.len(),
{
    if g.len() == 0 {
        0
    } else {
        unvisited(g.drop_last(), visited) + if visited.contains(g.last().0) {
            0nat
        } else {
            1nat
        }
    }
}

pub proof fn lemma_unvisited_mono(
    g: Seq<(Seq<char>, Seq<Seq<char>>)>,
    visited: Seq<Seq<char>>,
    extra: Seq<Seq<char>>,
)
    ensures
        unvisited(g, visited + extra) <= unvisited(g, visited),
    decreases g.len(),
{
    if g.len() > 0 {
        lemma_contains_append(visited, extra, g.last().0);
        lemma_unvisited_mono(g.drop_last(), visited, extra);
    }
}

proof fn lemma_contains_append(visited: Seq<Seq<char>>, extra: Seq<Seq<char>>, x: Seq<char>)
    ensures
        visited.contains(x) ==> (visited + extra).contains(x),
{
    if visited.contains(x) {
        let j = choose|j: int| 0 <= j < visited.len() && visited[j] == x;
        assert((visited + extra)[j] == x);
    }
}

pub proof fn lemma_unvisited_strict(
    g: Seq<(Seq<char>, Seq<Seq<char>>)>,
    visited: Seq<Seq<char>>,
    extra: Seq<Seq<char>>,
    k: Seq<char>,
)
    requires
        has_key(g, k),
        !visited.contains(k),
        (visited + extra).contains(k),
    ensures
        unvisited(g, visited + extra) < unvisited(g, visited),
    decreases g.len(),
{
    lemma_key_index(g, k);
    if g.last().0 == k {
        lemma_unvisited_mono(g.drop_last(), visited, extra);
    } else {
        let i = key_index(g, k)->0;
        assert(g.drop_last()[i] == g[i]);
        lemma_key_index(g.drop_last(), k);
        lemma_contains_append(visited, extra, g.last().0);
        lemma_unvisited_strict(g.drop_last(), visited, extra, k);
    }
}

/// The depth after one more step: one less where there is a limit.
pub open spec fn next_depth(depth: Option<usize>) -> Option<usize> {
    match depth {
        Some(d) => Some((d - 1) as usize),
        None => None,
    }
}

/// The vertices that the depth-first walk from `node` lists, in order, when
/// `visited` were seen before: `node` itself unless seen, then, where `node`
/// is neither the root nor at the depth limit, the walks from its targets.
pub open spec fn deep_visit(
    g: Seq<(Seq<char>, Seq<Seq<char>>)>,
    root: Seq<char>,
    node: Seq<char>,
    depth: Option<usize>,
    visited: Seq<Seq<char>>,
) -> Seq<Seq<char>>
    decreases unvisited(g, visited), 0nat, 0nat,
{
    if visited.contains(node) {
        Seq::empty()
    } else if root == node || depth == Some(0usize) || !has_key(g, node) {
        seq![node]
    } else {
        proof {
            assert(visited.push(node) == visited + seq![node]);
            assert((visited + seq![node])[visited.len() as int] == node);
            lemma_unvisited_strict(g, visited, seq![node], node);
        }
        seq![node] + deep_visit_list(g, root, adj(g, node), next_depth(depth), visited.push(node))
    }
}

/// The walks from each vertex of `list` in turn, each after all that the
/// ones before it listed.
pub open spec fn deep_visit_list(
    g: Seq<(Seq<char>, Seq<Seq<char>>)>,
    root: Seq<char>,
    list: Seq<Seq<char>>,
    depth: Option<usize>,
    visited: Seq<Seq<char>>,
) -> Seq<Seq<char>>
    decreases unvisited(g, visited), 1nat, list.len(),
{
    if list.len() == 0 {
        Seq::empty()
    } else if !has_key(g, list[0]) {
        deep_visit_list(g, root, list.drop_first(), depth, visited)
    } else {
        let first = deep_visit(g, root, list[0], depth, visited);
        proof {
            lemma_unvisited_mono(g, visited, first);
        }
        first + deep_visit_list(g, root, list.drop_first(), depth, visited + first)
    }
}

/// What `get_deep_children(root, depth_limit)` lists.
pub open spec fn deep_children(g: Seq<(Seq<char>, Seq<Seq<char>>)>, root: Seq<char>, depth_limit: usize) -> Seq<
    Seq<char>,
> {
    if has_key(g, root) {
        let d: usize = if depth_limit == 0 {
            0
        } else {
            (depth_limit - 1) as usize
        };
        deep_visit_list(g, root, adj(g, root), Some(d), Seq::empty())
    } else {
        Seq::empty()
    }
}

/// The edges of vertex `k` whose target is a vertex of `g`, as (vertex,
/// target) pairs in the order of `targets`.
pub open spec fn edge_pairs(
    g: Seq<(Seq<char>, Seq<Seq<char>>)>,
    k: Seq<char>,
    targets: Seq<Seq<char>>,
) -> Seq<(Seq<char>, Seq<char>)>
    decreases targets.len(),
{
    if targets.len() == 0 {
        Seq::empty()
    } else {
        edge_pairs(g, k, targets.drop_last()) + if has_key(g, targets.last()) {
            seq![(k, targets.last())]
        } else {
            Seq::empty()
        }
    }
}

/// The edge pairs of the first `n` vertices, vertex after vertex.
pub open spec fn root_pairs_upto(g: Seq<(Seq<char>, Seq<Seq<char>>)>, n: int) -> Seq<
    (Seq<char>, Seq<char>),
>
    decreases n,
{
    if n <= 0 || n > g.len() {
        Seq::empty()
    } else {
        root_pairs_upto(g, n - 1) + edge_pairs(g, g[n - 1].0, g[n - 1].1)
    }
}

/// The edge pairs of all vertices: where the search for cycles starts.
pub open spec fn root_pairs(g: Seq<(Seq<char>, Seq<Seq<char>>)>) -> Seq<(Seq<char>, Seq<char>)> {
    root_pairs_upto(g, g.len() as int)
}

/// The backtracking over a candidate cycle, from position `i` down: the
/// vertex before the one at `i - 1` is dropped where it has no edge to it.
pub open spec fn backtrack_from(g: Seq<(Seq<char>, Seq<Seq<char>>)>, path: Seq<Seq<char>>, i: int) -> Seq<
    Seq<char>,
>
    decreases i,
{
    if i <= 1 || i > path.len() {
        path
    } else {
        let next = if is_adjacent(g, path[i - 2], path[i - 1]) {
            path
        } else {
            path.remove(i - 2)
        };
        backtrack_from(g, next, i - 1)
    }
}

/// The items of `s` at their first occurrence, in order.
pub open spec fn first_occurrences(s: Seq<Seq<char>>) -> Seq<Seq<char>>
    decreases s.len(),
{
    if s.len() == 0 {
        Seq::empty()
    } else {
        let d = first_occurrences(s.drop_last());
        if d.contains(s.last()) {
            d
        } else {
            d.push(s.last())
        }
    }
}

/// The vertices of a candidate cycle that are on it.
pub open spec fn backtrack(g: Seq<(Seq<char>, Seq<Seq<char>>)>, path: Seq<Seq<char>>) -> Seq<Seq<char>> {
    first_occurrences(backtrack_from(g, path, path.len() as int))
}

/// The paths of `paths`, leaving out each that holds the same vertices, as
/// many times each, as one kept before it.
pub open spec fn keep_unique(paths: Seq<Seq<Seq<char>>>) -> Seq<Seq<Seq<char>>>
    decreases paths.len(),
{
    if paths.len() == 0 {
        Seq::empty()
    } else {
        let kept = keep_unique(paths.drop_last());
        if exists|k: int|
            0 <= k < kept.len() && (#[trigger] kept[k]).to_multiset()
                == paths.last().to_multiset() {
            kept
        } else {
            kept.push(paths.last())
        }
    }
}

/// How many times `x` occurs in `s`.
pub open spec fn count_in(s: Seq<Seq<char>>, x: Seq<char>) -> nat
    decreases s.len(),
{
    if s.len() == 0 {
        0
    } else {
        count_in(s.drop_last(), x) + if s.last() == x {
            1nat
        } else {
            0nat
        }
    }
}

pub proof fn lemma_count_in(s: Seq<Seq<char>>, x: Seq<char>)
    ensures
        s.to_multiset().count(x) == count_in(s, x),
    decreases s.len(),
{
    broadcast use vstd::seq_lib::group_to_multiset_ensures;

    if s.len() > 0 {
        lemma_count_in(s.drop_last(), x);
        assert(s.drop_last().push(s.last()) =~= s);
    }
}

/// The strings of each list.
pub open spec fn view_paths(v: Seq<Vec<String>>) -> Seq<Seq<Seq<char>>> {
    v.map_values(|p: Vec<String>| view_strings(p@))
}

/// The strings of each pair.
pub open spec fn view_pairs(v: Seq<(String, String)>) -> Seq<(Seq<char>, Seq<char>)> {
    v.map_values(|p: (String, String)| (p.0@, p.1@))
}

/// The first position of `x` in `s`.
pub open spec fn index_in(s: Seq<Seq<char>>, x: Seq<char>) -> Option<int>
    decreases s.len(),
{
    if s.len() == 0 {
        None
    } else {
        match index_in(s.drop_last(), x) {
            Some(i) => Some(i),
            None => if s.last() == x {
                Some(s.len() - 1)
            } else {
                None
            },
        }
    }
}

pub proof fn lemma_index_in(s: Seq<Seq<char>>, x: Seq<char>)
    ensures
        index_in(s, x) matches Some(i) ==> 0 <= i < s.len() && s[i] == x && forall|j: int|
            0 <= j < i ==> s[j] != x,
        index_in(s, x) is None ==> !s.contains(x),
    decreases s.len(),
{
    if s.len() > 0 {
        lemma_index_in(s.drop_last(), x);
        assert forall|j: int| 0 <= j < s.len() - 1 implies s[j] == s.drop_last()[j] by {}
        if index_in(s, x) is None {
            assert forall|j: int| 0 <= j < s.len() implies s[j] != x by {
                if j < s.len() - 1 {
                    assert(s.drop_last()[j] == s[j]);
                }
            }
        }
    }
}

/// The scan of the walk `deep` from an edge of `root`: the vertices met so
/// far, each once, and a candidate cycle backtracked each time the root is
/// among them.
pub open spec fn cycle_scan(
    g: Seq<(Seq<char>, Seq<Seq<char>>)>,
    root: Seq<char>,
    deep: Seq<Seq<char>>,
) -> (Seq<Seq<char>>, Seq<Seq<Seq<char>>>)
    decreases deep.len(),
{
    if deep.len() == 0 {
        (Seq::empty(), Seq::empty())
    } else {
        let prev = cycle_scan(g, root, deep.drop_last());
        let x = deep.last();
        let list = if prev.0.contains(x) {
            prev.0
        } else {
            prev.0.push(x)
        };
        if x == root || list.contains(root) {
            let index = index_in(list, root)->0;
            (list, prev.1.push(backtrack(g, seq![root] + list.take(index + 1))))
        } else {
            (list, prev.1)
        }
    }
}

/// The candidate cycles found from each edge pair in turn.
pub open spec fn cycles_from(g: Seq<(Seq<char>, Seq<Seq<char>>)>, pairs: Seq<(Seq<char>, Seq<char>)>) -> Seq<
    Seq<Seq<char>>,
>
    decreases pairs.len(),
{
    if pairs.len() == 0 {
        Seq::empty()
    } else {
        let (root, first) = pairs.last();
        cycles_from(g, pairs.drop_last()) + cycle_scan(
            g,
            root,
            deep_visit(g, root, first, None, Seq::empty()),
        ).1
    }
}

/// What `find_cycles` lists: the candidate cycles, each kept once up to the
/// order of its vertices.
pub open spec fn cycles(g: Seq<(Seq<char>, Seq<Seq<char>>)>) -> Seq<Seq<Seq<char>>> {
    keep_unique(cycles_from(g, root_pairs(g)))
}

/// The first position of `s` in `v`, which holds it.
fn position_of(v: &Vec<String>, s: &str) -> (r: usize)
    requires
        view_strings(v@).contains(s@),
    ensures
        index_in(view_strings(v@), s@) == Some(r as int),
        r < v@.len(),
{
    let ghost sv = view_strings(v@);
    proof {
        lemma_index_in(sv, s@);
    }
    let ghost f = index_in(sv, s@)->0;
    let mut i: usize = 0;
    while i < v.len()
        invariant
            sv == view_strings(v@),
            index_in(sv, s@) == Some(f),
            0 <= f < sv.len(),
            sv[f] == s@,
            forall|j: int| 0 <= j < f ==> sv[j] != s@,
            0 <= i <= f,
        decreases v.len() - i,
    {
        if str_eq(v[i].as_str(), s) {
            assert(sv[i as int] == s@);
            return i;
        }
        assert(sv[i as int] != s@);
        i = i + 1;
    }
    i
}


/// How many strings of `v` equal `s`.
fn count_of(v: &Vec<String>, s: &str) -> (n: usize)
    ensures
        n == count_in(view_strings(v@), s@),
{
    let mut n: usize = 0;
    let mut i: usize = 0;
    while i < v.len()
        invariant
            0 <= i <= v@.len(),
            n == count_in(view_strings(v@).take(i as int), s@),
            n <= i,
        decreases v.len() - i,
    {
        proof {
            assert(view_strings(v@).take(i + 1).drop_last() =~= view_strings(v@).take(i as int));
        }
        if str_eq(v[i].as_str(), s) {
            n = n + 1;
        }
        i = i + 1;
    }
    proof {
        assert(view_strings(v@).take(v@.len() as int) =~= view_strings(v@));
    }
    n
}

/// Whether two lists hold the same strings, as many times each.
fn same_multiset(a: &Vec<String>, b: &Vec<String>) -> (r: bool)
    ensures
        r == (view_strings(a@).to_multiset() == view_strings(b@).to_multiset()),
{
    broadcast use vstd::seq_lib::group_to_multiset_ensures;

    let ghost sa = view_strings(a@);
    let ghost sb = view_strings(b@);
    let mut i: usize = 0;
    while i < a.len()
        invariant
            sa == view_strings(a@),
            sb == view_strings(b@),
            0 <= i <= a@.len(),
            forall|k: int| 0 <= k < i ==> count_in(sa, #[trigger] sa[k]) == count_in(sb, sa[k]),
        decreases a.len() - i,
    {
        if count_of(a, a[i].as_str()) != count_of(b, a[i].as_str()) {
            proof {
                lemma_count_in(sa, sa[i as int]);
                lemma_count_in(sb, sa[i as int]);
            }
            return false;
        }
        i = i + 1;
    }
    let mut j: usize = 0;
    while j < b.len()
        invariant
            sa == view_strings(a@),
            sb == view_strings(b@),
            0 <= j <= b@.len(),
            forall|k: int| 0 <= k < sa.len() ==> count_in(sa, #[trigger] sa[k]) == count_in(sb, sa[k]),
            forall|k: int| 0 <= k < j ==> count_in(sa, #[trigger] sb[k]) == count_in(sb, sb[k]),
        decreases b.len() - j,
    {
        if count_of(a, b[j].as_str()) != count_of(b, b[j].as_str()) {
            proof {
                lemma_count_in(sa, sb[j as int]);
                lemma_count_in(sb, sb[j as int]);
            }
            return false;
        }
        j = j + 1;
    }
    proof {
        assert forall|x: Seq<char>| sa.to_multiset().count(x) == sb.to_multiset().count(x) by {
            lemma_count_in(sa, x);
            lemma_count_in(sb, x);
            if sa.contains(x) {
                let k = choose|k: int| 0 <= k < sa.len() && sa[k] == x;
                assert(count_in(sa, sa[k]) == count_in(sb, sa[k]));
            } else if sb.contains(x) {
                let k = choose|k: int| 0 <= k < sb.len() && sb[k] == x;
                assert(count_in(sa, sb[k]) == count_in(sb, sb[k]));
            }
        }
        assert(sa.to_multiset() =~= sb.to_multiset());
    }
    true
}

/// The paths of `paths`, leaving out each that holds the same vertices, as
/// many times each, as one kept before it.
pub fn keep_unique_vertices_paths(paths: Vec<Vec<String>>) -> (r: Vec<Vec<String>>)
    ensures
        view_paths(r@) == keep_unique(view_paths(paths@)),
{
    let ghost all = view_paths(paths@);
    let mut unique: Vec<Vec<String>> = Vec::new();
    let mut i: usize = 0;
    while i < paths.len()
        invariant
            all == view_paths(paths@),
            0 <= i <= paths@.len(),
            view_paths(unique@) == keep_unique(all.take(i as int)),
        decreases paths.len() - i,
    {
        let ghost kept = view_paths(unique@);
        proof {
            assert(all.take(i + 1).drop_last() =~= all.take(i as int));
            assert(all.take(i + 1).last() == all[i as int]);
        }
        let mut is_duplicate = false;
        let mut k: usize = 0;
        while k < unique.len()
            invariant
                kept == view_paths(unique@),
                all == view_paths(paths@),
                0 <= i < paths@.len(),
                0 <= k <= unique@.len(),
                is_duplicate == exists|m: int|
                    0 <= m < k && (#[trigger] kept[m]).to_multiset() == all[i as int].to_multiset(),
            decreases unique.len() - k,
        {
            proof {
                assert(kept[k as int] == view_strings(unique@[k as int]@));
                assert(all[i as int] == view_strings(paths@[i as int]@));
            }
            let same = same_multiset(&unique[k], &paths[i]);
            if same {
                is_duplicate = true;
            }
            proof {
                if same {
                    assert(kept[k as int].to_multiset() == all[i as int].to_multiset());
                }
            }
            k = k + 1;
        }
        if !is_duplicate {
            let ghost before = unique@;
            unique.push(clone_path(&paths[i]));
            proof {
                assert(view_paths(unique@) =~= view_paths(before).push(all[i as int]));
            }
        }
        i = i + 1;
    }
    proof {
        assert(all.take(paths@.len() as int) =~= all);
    }
    unique
}

/// A copy of a path.
fn clone_path(v: &Vec<String>) -> (r: Vec<String>)
    ensures
        view_strings(r@) == view_strings(v@),
{
    clone_strings(v)
}

/// A directed graph of named vertices, kept in the order they were added.
pub struct DiGraph {
    vertices: IndexMap<String, Vec<String>>,
}

impl Default for DiGraph {
    fn default() -> (r: DiGraph)
        ensures
            r.entries() == Seq::<(Seq<char>, Seq<Seq<char>>)>::empty(),
    {
        DiGraph::new()
    }
}

impl DiGraph {
    /// The vertices in the order they were added, each with the targets of
    /// its edges in the order they were added.
    pub closed spec fn entries(&self) -> Seq<(Seq<char>, Seq<Seq<char>>)> {
        name_list_entries(self.vertices)
    }

    /// A graph without vertices.
    pub fn new() -> (r: DiGraph)
        ensures
            r.entries() == Seq::<(Seq<char>, Seq<Seq<char>>)>::empty(),
            graph_wf(r.entries()),
    {
        DiGraph { vertices: name_list_new() }
    }

    /// Whether a vertex is named `id`.
    pub fn has_vertex(&self, id: &str) -> (r: bool)
        ensures
            r == has_key(self.entries(), id@),
    {
        name_list_contains_key(&self.vertices, id)
    }

    /// Adds a vertex named `id`, without edges, unless there is one.
    pub fn add_vertex(&mut self, id: String)
        ensures
            final(self).entries() == with_vertex(old(self).entries(), id@),
    {
        if !name_list_contains_key(&self.vertices, id.as_str()) {
            let _ = name_list_insert(&mut self.vertices, id, Vec::new());
            proof {
                assert(view_strings(Seq::<String>::empty()) =~= Seq::<Seq<char>>::empty());
            }
        }
    }

    /// Adds the edge from `from` to `to`, unless it would be a loop, either
    /// end is no vertex, or the edge is there.
    pub fn add_edge(&mut self, from: String, to: String)
        ensures
            final(self).entries() == with_edge(old(self).entries(), from@, to@),
    {
        if from == to || !name_list_contains_key(&self.vertices, to.as_str()) {
            return;
        }
        let targets = match name_list_get(&self.vertices, from.as_str()) {
            Some(targets) => targets,
            None => {
                return;
            },
        };
        if strings_contain(targets, to.as_str()) {
            return;
        }
        let mut updated = clone_strings(targets);
        let ghost before = view_strings(updated@);
        let ghost target = to@;
        updated.push(to);
        proof {
            assert(view_strings(updated@) =~= before.push(target));
        }
        let _ = name_list_insert(&mut self.vertices, from, updated);
    }

    /// Records that the file `from` imports the file `to`: `to` becomes a
    /// vertex if it is none yet, and the edge is added. Says whether `to`
    /// was new, and so still has to be analysed.
    pub fn link_dependency(&mut self, from: &str, to: &str) -> (r: bool)
        ensures
            r == !has_key(old(self).entries(), to@),
            final(self).entries() == with_edge(with_vertex(old(self).entries(), to@), from@, to@),
    {
        let is_new = !self.has_vertex(to);
        if is_new {
            self.add_vertex(crate::text::to_string(to));
        }
        self.add_edge(crate::text::to_string(from), crate::text::to_string(to));
        is_new
    }

    /// The cycles of the graph, each once whatever the order of its vertices.
    pub fn find_cycles(&self) -> (r: Vec<Vec<String>>)
        ensures
            view_paths(r@) == cycles(self.entries()),
    {
        let ghost g = self.entries();
        let pairs = self.collect_root_adjacency_lists();
        let ghost all_pairs = view_pairs(pairs@);
        let mut found: Vec<Vec<String>> = Vec::new();
        proof {
            assert(all_pairs.take(0) =~= Seq::<(Seq<char>, Seq<char>)>::empty());
            assert(view_paths(found@) =~= Seq::<Seq<Seq<char>>>::empty());
        }
        let mut p: usize = 0;
        while p < pairs.len()
            invariant
                g == self.entries(),
                all_pairs == view_pairs(pairs@),
                all_pairs == root_pairs(g),
                0 <= p <= pairs@.len(),
                view_paths(found@) == cycles_from(g, all_pairs.take(p as int)),
            decreases pairs.len() - p,
        {
            let root_id = &pairs[p].0;
            let first = &pairs[p].1;
            let ghost before = view_paths(found@);
            proof {
                assert(all_pairs.take(p + 1).drop_last() =~= all_pairs.take(p as int));
                assert(all_pairs.take(p + 1).last() == (root_id@, first@));
            }
            let mut visited: Vec<String> = Vec::new();
            let mut deep: Vec<String> = Vec::new();
            proof {
                assert(view_strings(visited@) =~= Seq::<Seq<char>>::empty());
                assert(view_strings(deep@) =~= Seq::<Seq<char>>::empty());
            }
            self.find_deep_dependencies(root_id.as_str(), first.as_str(), None, &mut visited, &mut deep);
            let ghost walk = view_strings(deep@);
            proof {
                assert(Seq::<Seq<char>>::empty() + deep_visit(g, root_id@, first@, None, Seq::empty())
                    =~= deep_visit(g, root_id@, first@, None, Seq::empty()));
                assert(walk.take(0) =~= Seq::<Seq<char>>::empty());
                assert(before + Seq::<Seq<Seq<char>>>::empty() =~= before);
            }
            let mut adjacency_list: Vec<String> = Vec::new();
            proof {
                assert(view_strings(adjacency_list@) =~= Seq::<Seq<char>>::empty());
            }
            let mut k: usize = 0;
            while k < deep.len()
                invariant
                    g == self.entries(),
                    walk == view_strings(deep@),
                    0 <= k <= deep@.len(),
                    view_strings(adjacency_list@) == cycle_scan(g, root_id@, walk.take(k as int)).0,
                    view_paths(found@) == before + cycle_scan(g, root_id@, walk.take(k as int)).1,
                decreases deep.len() - k,
            {
                proof {
                    assert(walk.take(k + 1).drop_last() =~= walk.take(k as int));
                    assert(walk.take(k + 1).last() == deep@[k as int]@);
                }
                let ghost found_before = found@;
                if !strings_contain(&adjacency_list, deep[k].as_str()) {
                    let ghost list_before = adjacency_list@;
                    adjacency_list.push(deep[k].clone());
                    proof {
                        crate::text::lemma_view_strings_push(list_before, deep@[k as int]);
                    }
                }
                let ghost list = view_strings(adjacency_list@);
                proof {
                    assert(list.contains(deep@[k as int]@)) by {
                        if !cycle_scan(g, root_id@, walk.take(k as int)).0.contains(deep@[k as int]@) {
                            assert(list[list.len() - 1] == deep@[k as int]@);
                        }
                    }
                }
                if str_eq(deep[k].as_str(), root_id.as_str()) || strings_contain(
                    &adjacency_list,
                    root_id.as_str(),
                ) {
                    let index = position_of(&adjacency_list, root_id.as_str());
                    let count = adjacency_list.len();
                    assert(index < count);
                    let mut path: Vec<String> = Vec::new();
                    path.push(root_id.clone());
                    proof {
                        assert(view_strings(path@) =~= seq![root_id@] + list.take(0));
                    }
                    let mut t: usize = 0;
                    while t <= index
                        invariant
                            list == view_strings(adjacency_list@),
                            index < adjacency_list@.len(),
                            index < count,
                            0 <= t <= index + 1,
                            view_strings(path@) == seq![root_id@] + list.take(t as int),
                        decreases index + 1 - t,
                    {
                        let ghost path_before = path@;
                        path.push(adjacency_list[t].clone());
                        proof {
                            crate::text::lemma_view_strings_push(path_before, adjacency_list@[t as int]);
                            assert(list.take(t + 1) =~= list.take(t as int).push(list[t as int]));
                            assert(seq![root_id@] + list.take(t + 1) =~= (seq![root_id@] + list.take(
                                t as int,
                            )).push(list[t as int]));
                        }
                        t = t + 1;
                    }
                    let cycle = self.backtrack_vertices_involved_in_cycle(path);
                    found.push(cycle);
                    proof {
                        assert(view_paths(found@) =~= view_paths(found_before).push(
                            view_strings(cycle@),
                        ));
                    }
                }
                k = k + 1;
            }
            proof {
                assert(walk.take(deep@.len() as int) =~= walk);
            }
            p = p + 1;
        }
        proof {
            assert(all_pairs.take(pairs@.len() as int) =~= all_pairs);
        }
        keep_unique_vertices_paths(found)
    }

    /// Each edge whose target is a vertex, as a (vertex, target) pair, vertex
    /// after vertex in the order they were added.
    fn collect_root_adjacency_lists(&self) -> (r: Vec<(String, String)>)
        ensures
            view_pairs(r@) == root_pairs(self.entries()),
    {
        let ghost g = self.entries();
        let n = crate::collections::name_list_len(&self.vertices);
        let mut out: Vec<(String, String)> = Vec::new();
        proof {
            assert(view_pairs(out@) =~= Seq::<(Seq<char>, Seq<char>)>::empty());
        }
        let mut i: usize = 0;
        while i < n
            invariant
                g == self.entries(),
                n == g.len(),
                0 <= i <= n,
                view_pairs(out@) == root_pairs_upto(g, i as int),
            decreases n - i,
        {
            match crate::collections::name_list_get_index(&self.vertices, i) {
                Some(entry) => {
                    let root = entry.0;
                    let targets = entry.1;
                    let ghost list = view_strings(targets@);
                    let ghost start = view_pairs(out@);
                    proof {
                        assert(list.take(0) =~= Seq::<Seq<char>>::empty());
                        assert(start + Seq::<(Seq<char>, Seq<char>)>::empty() =~= start);
                    }
                    let mut j: usize = 0;
                    while j < targets.len()
                        invariant
                            g == self.entries(),
                            list == view_strings(targets@),
                            0 <= j <= targets@.len(),
                            view_pairs(out@) == start + edge_pairs(g, root@, list.take(j as int)),
                        decreases targets.len() - j,
                    {
                        let ghost before = out@;
                        proof {
                            assert(list.take(j + 1).drop_last() =~= list.take(j as int));
                            assert(list.take(j + 1).last() == targets@[j as int]@);
                        }
                        if name_list_contains_key(&self.vertices, targets[j].as_str()) {
                            out.push((root.clone(), targets[j].clone()));
                            proof {
                                assert(view_pairs(out@) =~= view_pairs(before).push(
                                    (root@, targets@[j as int]@),
                                ));
                            }
                        } else {
                            proof {
                                assert(edge_pairs(g, root@, list.take(j + 1)) =~= edge_pairs(
                                    g,
                                    root@,
                                    list.take(j as int),
                                ) + Seq::<(Seq<char>, Seq<char>)>::empty());
                            }
                        }
                        j = j + 1;
                    }
                    proof {
                        assert(list.take(targets@.len() as int) =~= list);
                    }
                },
                None => {},
            }
            i = i + 1;
        }
        out
    }

    /// Drops from a candidate cycle, from the end backwards, each vertex with
    /// no edge to the one after it, then keeps each vertex once.
    fn backtrack_vertices_involved_in_cycle(&self, path: Vec<String>) -> (r: Vec<String>)
        ensures
            view_strings(r@) == backtrack(self.entries(), view_strings(path@)),
    {
        let ghost g = self.entries();
        let ghost start = view_strings(path@);
        let mut path = path;
        let mut i: usize = path.len();
        while i > 1
            invariant
                g == self.entries(),
                i <= path@.len(),
                backtrack_from(g, view_strings(path@), i as int) == backtrack_from(
                    g,
                    start,
                    start.len() as int,
                ),
            decreases i,
        {
            let ghost current = view_strings(path@);
            let is_parent = match name_list_get(&self.vertices, path[i - 2].as_str()) {
                Some(targets) => strings_contain(targets, path[i - 1].as_str()),
                None => false,
            };
            proof {
                assert(current[i - 2] == path@[i - 2]@);
                assert(current[i - 1] == path@[i - 1]@);
                assert(is_parent == is_adjacent(g, current[i - 2], current[i - 1]));
            }
            if !is_parent {
                let _ = path.remove(i - 2);
                proof {
                    assert(view_strings(path@) =~= current.remove(i - 2));
                }
            }
            i = i - 1;
        }
        let ghost trimmed = view_strings(path@);
        proof {
            assert(backtrack_from(g, trimmed, i as int) == trimmed);
        }
        let mut out: Vec<String> = Vec::new();
        proof {
            assert(trimmed.take(0) =~= Seq::<Seq<char>>::empty());
            assert(view_strings(out@) =~= Seq::<Seq<char>>::empty());
        }
        let mut k: usize = 0;
        while k < path.len()
            invariant
                trimmed == view_strings(path@),
                0 <= k <= path@.len(),
                view_strings(out@) == first_occurrences(trimmed.take(k as int)),
            decreases path.len() - k,
        {
            proof {
                assert(trimmed.take(k + 1).drop_last() =~= trimmed.take(k as int));
                assert(trimmed.take(k + 1).last() == path@[k as int]@);
            }
            if !strings_contain(&out, path[k].as_str()) {
                let ghost before = out@;
                out.push(path[k].clone());
                proof {
                    crate::text::lemma_view_strings_push(before, path@[k as int]);
                }
            }
            k = k + 1;
        }
        proof {
            assert(trimmed.take(path@.len() as int) =~= trimmed);
        }
        out
    }

    /// The vertices below `root_id`, in depth-first order, each once, down to
    /// `depth_limit` edges from it (the root's own targets count as one).
    pub fn get_deep_children(&self, root_id: &str, depth_limit: usize) -> (r: Vec<String>)
        ensures
            view_strings(r@) == deep_children(self.entries(), root_id@, depth_limit),
    {
        let targets = match name_list_get(&self.vertices, root_id) {
            Some(targets) => targets,
            None => {
                return Vec::new();
            },
        };
        let depth: usize = if depth_limit == 0 {
            0
        } else {
            depth_limit - 1
        };
        let ghost g = self.entries();
        let ghost list = view_strings(targets@);
        let mut visited: Vec<String> = Vec::new();
        let mut out: Vec<String> = Vec::new();
        proof {
            let none = Seq::<Seq<char>>::empty();
            assert(list.skip(0) =~= list);
            assert(view_strings(out@) =~= none);
            assert(view_strings(visited@) =~= none);
            assert(none + deep_visit_list(g, root_id@, list, Some(depth), none) =~= deep_visit_list(
                g,
                root_id@,
                list,
                Some(depth),
                none,
            ));
        }
        let mut j: usize = 0;
        while j < targets.len()
            invariant
                g == self.entries(),
                list == view_strings(targets@),
                0 <= j <= targets@.len(),
                view_strings(visited@) == view_strings(out@),
                view_strings(out@) + deep_visit_list(
                    g,
                    root_id@,
                    list.skip(j as int),
                    Some(depth),
                    view_strings(visited@),
                ) == deep_visit_list(g, root_id@, list, Some(depth), Seq::empty()),
            decreases targets.len() - j,
        {
            let ghost before = view_strings(out@);
            proof {
                assert(list.skip(j as int).drop_first() =~= list.skip(j + 1));
                assert(list.skip(j as int)[0] == list[j as int]);
            }
            if name_list_contains_key(&self.vertices, targets[j].as_str()) {
                self.find_deep_dependencies(
                    root_id,
                    targets[j].as_str(),
                    Some(depth),
                    &mut visited,
                    &mut out,
                );
                proof {
                    let first = deep_visit(g, root_id@, list[j as int], Some(depth), before);
                    assert(view_strings(out@) == before + first);
                    assert(before + (first + deep_visit_list(
                        g,
                        root_id@,
                        list.skip(j + 1),
                        Some(depth),
                        before + first,
                    )) =~= (before + first) + deep_visit_list(
                        g,
                        root_id@,
                        list.skip(j + 1),
                        Some(depth),
                        before + first,
                    ));
                }
            }
            j = j + 1;
        }
        proof {
            assert(list.skip(j as int) =~= Seq::<Seq<char>>::empty());
            assert(view_strings(out@) + Seq::<Seq<char>>::empty() =~= view_strings(out@));
            assert(view_strings(targets@) == adj(g, root_id@));
        }
        out
    }

    /// The depth-first walk from `traversed_id`: lists it unless `visited`
    /// holds it, then, unless it is the root or at the depth limit, walks
    /// from each of its targets in turn.
    fn find_deep_dependencies(
        &self,
        root_id: &str,
        traversed_id: &str,
        depth_remaining: Option<usize>,
        visited: &mut Vec<String>,
        out: &mut Vec<String>,
    )
        ensures
            view_strings(final(out)@) == view_strings(old(out)@) + deep_visit(
                self.entries(),
                root_id@,
                traversed_id@,
                depth_remaining,
                view_strings(old(visited)@),
            ),
            view_strings(final(visited)@) == view_strings(old(visited)@) + deep_visit(
                self.entries(),
                root_id@,
                traversed_id@,
                depth_remaining,
                view_strings(old(visited)@),
            ),
        decreases unvisited(self.entries(), view_strings(old(visited)@)),
    {
        let ghost g = self.entries();
        let ghost vis0 = view_strings(visited@);
        let ghost out0 = view_strings(out@);
        if strings_contain(visited, traversed_id) {
            proof {
                assert(vis0 + Seq::<Seq<char>>::empty() =~= vis0);
                assert(out0 + Seq::<Seq<char>>::empty() =~= out0);
            }
            return;
        }
        out.push(to_string(traversed_id));
        visited.push(to_string(traversed_id));
        proof {
            assert(view_strings(out@) =~= out0 + seq![traversed_id@]);
            assert(view_strings(visited@) =~= vis0 + seq![traversed_id@]);
        }
        let at_limit = match depth_remaining {
            Some(d) => d == 0,
            None => false,
        };
        if str_eq(root_id, traversed_id) || at_limit {
            return;
        }
        let targets = match name_list_get(&self.vertices, traversed_id) {
            Some(targets) => targets,
            None => {
                return;
            },
        };
        let next: Option<usize> = match depth_remaining {
            Some(d) => Some(d - 1),
            None => None,
        };
        let ghost list = view_strings(targets@);
        let ghost vis1 = vis0.push(traversed_id@);
        proof {
            assert(vis1 == vis0 + seq![traversed_id@]);
            assert(list == adj(g, traversed_id@));
        }
        proof {
            let none = Seq::<Seq<char>>::empty();
            assert(list.skip(0) =~= list);
            assert(vis1 + none =~= vis1);
            assert(out0 + seq![traversed_id@] + none =~= out0 + seq![traversed_id@]);
            assert(none + deep_visit_list(g, root_id@, list, next, vis1) =~= deep_visit_list(
                g,
                root_id@,
                list,
                next,
                vis1,
            ));
            assert(view_strings(visited@) == vis1 + none);
        }
        let mut j: usize = 0;
        while j < targets.len()
            invariant
                g == self.entries(),
                vis0 == view_strings(old(visited)@),
                list == view_strings(targets@),
                has_key(g, traversed_id@),
                !vis0.contains(traversed_id@),
                vis1 == vis0 + seq![traversed_id@],
                0 <= j <= targets@.len(),
                exists|produced: Seq<Seq<char>>|
                    {
                        &&& view_strings(visited@) == vis1 + produced
                        &&& view_strings(out@) == out0 + seq![traversed_id@] + produced
                        &&& produced + deep_visit_list(
                            g,
                            root_id@,
                            list.skip(j as int),
                            next,
                            vis1 + produced,
                        ) == deep_visit_list(g, root_id@, list, next, vis1)
                    },
            decreases targets.len() - j,
        {
            let ghost produced = choose|produced: Seq<Seq<char>>|
                {
                    &&& view_strings(visited@) == vis1 + produced
                    &&& view_strings(out@) == out0 + seq![traversed_id@] + produced
                    &&& produced + deep_visit_list(
                        g,
                        root_id@,
                        list.skip(j as int),
                        next,
                        vis1 + produced,
                    ) == deep_visit_list(g, root_id@, list, next, vis1)
                };
            proof {
                assert(list.skip(j as int).drop_first() =~= list.skip(j + 1));
                assert(list.skip(j as int)[0] == list[j as int]);
            }
            if name_list_contains_key(&self.vertices, targets[j].as_str()) {
                proof {
                    assert(vis1 + produced =~= vis0 + (seq![traversed_id@] + produced));
                    assert((seq![traversed_id@] + produced)[0] == traversed_id@);
                    assert((vis0 + (seq![traversed_id@] + produced))[vis0.len() as int]
                        == traversed_id@);
                    lemma_unvisited_strict(g, vis0, seq![traversed_id@] + produced, traversed_id@);
                    assert(unvisited(g, view_strings(visited@)) < unvisited(g, vis0));
                }
                self.find_deep_dependencies(root_id, targets[j].as_str(), next, visited, out);
                proof {
                    let first = deep_visit(g, root_id@, list[j as int], next, vis1 + produced);
                    let rest = deep_visit_list(
                        g,
                        root_id@,
                        list.skip(j + 1),
                        next,
                        vis1 + produced + first,
                    );
                    assert(vis1 + (produced + first) =~= vis1 + produced + first);
                    assert(out0 + seq![traversed_id@] + (produced + first) =~= out0 + seq![
                        traversed_id@,
                    ] + produced + first);
                    assert((produced + first) + rest =~= produced + (first + rest));
                }
            }
            j = j + 1;
        }
        proof {
            let produced = choose|produced: Seq<Seq<char>>|
                {
                    &&& view_strings(visited@) == vis1 + produced
                    &&& view_strings(out@) == out0 + seq![traversed_id@] + produced
                    &&& produced + deep_visit_list(
                        g,
                        root_id@,
                        list.skip(j as int),
                        next,
                        vis1 + produced,
                    ) == deep_visit_list(g, root_id@, list, next, vis1)
                };
            assert(list.skip(j as int) =~= Seq::<Seq<char>>::empty());
            assert(produced + Seq::<Seq<char>>::empty() =~= produced);
            assert(next == next_depth(depth_remaining));
            assert(vis0 + (seq![traversed_id@] + produced) =~= vis1 + produced);
            assert(out0 + (seq![traversed_id@] + produced) =~= out0 + seq![traversed_id@]
                + produced);
        }
    }
}

} // verus!

verus! {

/// Two entry lists with the same keys at the same positions find each key at
/// the same position.
proof fn lemma_key_index_same_keys(
    g1: Seq<(Seq<char>, Seq<Seq<char>>)>,
    g2: Seq<(Seq<char>, Seq<Seq<char>>)>,
    k: Seq<char>,
)
    requires
        g1.len() == g2.len(),
        forall|j: int| 0 <= j < g1.len() ==> g1[j].0 == g2[j].0,
    ensures
        key_index(g1, k) == key_index(g2, k),
    decreases g1.len(),
{
    if g1.len() > 0 {
        lemma_key_index_same_keys(g1.drop_last(), g2.drop_last(), k);
    }
}

/// Adding a vertex keeps the graph's invariant, leaves the vertices that
/// were there with their edges, and the graph then has that vertex.
pub proof fn lemma_add_vertex(g: Seq<(Seq<char>, Seq<Seq<char>>)>, id: Seq<char>)
    requires
        graph_wf(g),
    ensures
        graph_wf(with_vertex(g, id)),
        has_key(with_vertex(g, id), id),
        forall|k: Seq<char>|
            has_key(g, k) ==> has_key(with_vertex(g, id), k) && adj(with_vertex(g, id), k) == adj(
                g,
                k,
            ),
        with_vertex(with_vertex(g, id), id) == with_vertex(g, id),
{
    lemma_key_index(g, id);
    if !has_key(g, id) {
        let h = g.push((id, Seq::<Seq<char>>::empty()));
        assert(h.drop_last() =~= g);
        assert forall|k: Seq<char>| has_key(g, k) implies key_index(h, k) == key_index(g, k) && adj(
            h,
            k,
        ) == adj(g, k) by {
            lemma_key_index(g, k);
            assert(h[key_index(g, k)->0] == g[key_index(g, k)->0]);
        }
        assert(has_key(h, id));
        assert forall|i: int, m: int| 0 <= i < h.len() && 0 <= m < h[i].1.len() implies has_key(
            h,
            (#[trigger] h[i].1[m]),
        ) by {
            assert(h[i] == g[i]);
            assert(has_key(g, g[i].1[m]));
        }
        assert forall|i: int| 0 <= i < h.len() implies (#[trigger] h[i]).1.no_duplicates() by {
            if i < g.len() {
                assert(h[i] == g[i]);
            }
        }
        assert forall|i: int| 0 <= i < h.len() implies !(#[trigger] h[i]).1.contains(h[i].0) by {
            if i < g.len() {
                assert(h[i] == g[i]);
            }
        }
    }
}

/// Adding an edge keeps the graph's invariant and its vertices; where the
/// edge joins two distinct vertices, the graph then has it.
pub proof fn lemma_add_edge(g: Seq<(Seq<char>, Seq<Seq<char>>)>, from: Seq<char>, to: Seq<char>)
    requires
        graph_wf(g),
    ensures
        graph_wf(with_edge(g, from, to)),
        forall|k: Seq<char>| has_key(with_edge(g, from, to), k) == has_key(g, k),
        from != to && has_key(g, from) && has_key(g, to) ==> is_adjacent(
            with_edge(g, from, to),
            from,
            to,
        ),
        with_edge(with_edge(g, from, to), from, to) == with_edge(g, from, to),
{
    lemma_key_index(g, from);
    lemma_key_index(g, to);
    if !(from == to || !has_key(g, to) || !has_key(g, from) || adj(g, from).contains(to)) {
        let i = key_index(g, from)->0;
        let h = with_edge(g, from, to);
        assert(h == g.update(i, (from, g[i].1.push(to))));
        assert forall|k: Seq<char>| key_index(h, k) == key_index(g, k) by {
            lemma_key_index_same_keys(h, g, k);
        }
        assert forall|i2: int| 0 <= i2 < h.len() implies (#[trigger] h[i2]).1.no_duplicates() by {
            if i2 != i {
                assert(h[i2] == g[i2]);
            } else {
                assert(g[i].1.no_duplicates());
                assert forall|a: int, b: int|
                    0 <= a < b < h[i].1.len() implies h[i].1[a] != h[i].1[b] by {
                    if b == g[i].1.len() {
                        assert(h[i].1[a] == g[i].1[a]);
                    }
                }
            }
        }
        assert forall|i2: int| 0 <= i2 < h.len() implies !(#[trigger] h[i2]).1.contains(h[i2].0) by {
            if i2 != i {
                assert(h[i2] == g[i2]);
            } else {
                if h[i].1.contains(from) {
                    let m = choose|m: int| 0 <= m < h[i].1.len() && h[i].1[m] == from;
                    if m < g[i].1.len() {
                        assert(g[i].1[m] == from);
                    }
                }
            }
        }
        assert forall|i2: int, m: int| 0 <= i2 < h.len() && 0 <= m < h[i2].1.len() implies has_key(
            h,
            (#[trigger] h[i2].1[m]),
        ) by {
            if i2 != i {
                assert(h[i2] == g[i2]);
                assert(has_key(g, g[i2].1[m]));
            } else if m < g[i].1.len() {
                assert(h[i].1[m] == g[i].1[m]);
                assert(has_key(g, g[i].1[m]));
            }
        }
        assert(adj(h, from) == g[i].1.push(to));
        assert(adj(h, from)[g[i].1.len() as int] == to);
        lemma_key_index(h, from);
        lemma_key_index(h, to);
    }
}

/// The walk from a vertex lists no vertex twice, and none that was seen
/// before it.
pub proof fn lemma_deep_visit_unique(
    g: Seq<(Seq<char>, Seq<Seq<char>>)>,
    root: Seq<char>,
    node: Seq<char>,
    depth: Option<usize>,
    visited: Seq<Seq<char>>,
)
    ensures
        deep_visit(g, root, node, depth, visited).no_duplicates(),
        forall|x: Seq<char>|
            deep_visit(g, root, node, depth, visited).contains(x) ==> !visited.contains(x),
    decreases unvisited(g, visited), 0nat, 0nat,
{
    if !visited.contains(node) && !(root == node || depth == Some(0usize) || !has_key(g, node)) {
        assert(visited.push(node) == visited + seq![node]);
        assert((visited + seq![node])[visited.len() as int] == node);
        lemma_unvisited_strict(g, visited, seq![node], node);
        let rest = deep_visit_list(g, root, adj(g, node), next_depth(depth), visited.push(node));
        lemma_deep_visit_list_unique(g, root, adj(g, node), next_depth(depth), visited.push(node));
        let r = seq![node] + rest;
        assert forall|x: Seq<char>| r.contains(x) implies !visited.contains(x) by {
            let j = choose|j: int| 0 <= j < r.len() && r[j] == x;
            if j > 0 {
                assert(rest[j - 1] == x);
                assert(!visited.push(node).contains(x));
                if visited.contains(x) {
                    let m = choose|m: int| 0 <= m < visited.len() && visited[m] == x;
                    assert(visited.push(node)[m] == x);
                }
            }
        }
        assert forall|a: int, b: int| 0 <= a < b < r.len() implies r[a] != r[b] by {
            if a > 0 {
                assert(r[a] == rest[a - 1]);
                assert(r[b] == rest[b - 1]);
            } else {
                assert(r[a] == node);
                assert(r[b] == rest[b - 1]);
                assert(rest.contains(rest[b - 1]));
                assert(visited.push(node)[visited.len() as int] == node);
                assert(visited.push(node).contains(node));
            }
        }
    }
}

/// The walks from a list of vertices list no vertex twice, and none that
/// was seen before them.
pub proof fn lemma_deep_visit_list_unique(
    g: Seq<(Seq<char>, Seq<Seq<char>>)>,
    root: Seq<char>,
    list: Seq<Seq<char>>,
    depth: Option<usize>,
    visited: Seq<Seq<char>>,
)
    ensures
        deep_visit_list(g, root, list, depth, visited).no_duplicates(),
        forall|x: Seq<char>|
            deep_visit_list(g, root, list, depth, visited).contains(x) ==> !visited.contains(x),
    decreases unvisited(g, visited), 1nat, list.len(),
{
    if list.len() > 0 {
        if !has_key(g, list[0]) {
            lemma_deep_visit_list_unique(g, root, list.drop_first(), depth, visited);
        } else {
            let first = deep_visit(g, root, list[0], depth, visited);
            lemma_deep_visit_unique(g, root, list[0], depth, visited);
            lemma_unvisited_mono(g, visited, first);
            lemma_deep_visit_list_unique(g, root, list.drop_first(), depth, visited + first);
            let rest = deep_visit_list(g, root, list.drop_first(), depth, visited + first);
            let r = first + rest;
            assert forall|x: Seq<char>| rest.contains(x) implies !visited.contains(x)
                && !first.contains(x) by {
                assert(!(visited + first).contains(x));
                lemma_contains_append(visited, first, x);
                if first.contains(x) {
                    let m = choose|m: int| 0 <= m < first.len() && first[m] == x;
                    assert((visited + first)[visited.len() + m] == x);
                    assert((visited + first).contains(x));
                }
            }
            assert forall|x: Seq<char>| r.contains(x) implies !visited.contains(x) by {
                let j = choose|j: int| 0 <= j < r.len() && r[j] == x;
                if j < first.len() {
                    assert(first[j] == x);
                } else {
                    assert(rest[j - first.len()] == x);
                }
            }
            assert forall|a: int, b: int| 0 <= a < b < r.len() implies r[a] != r[b] by {
                if b < first.len() {
                } else if a >= first.len() {
                    assert(r[a] == rest[a - first.len()]);
                    assert(r[b] == rest[b - first.len()]);
                } else {
                    assert(r[b] == rest[b - first.len()]);
                    assert(rest.contains(r[b]));
                    assert(first.contains(r[a]));
                }
            }
        }
    }
}

/// `get_deep_children` lists no vertex twice.
pub proof fn lemma_deep_children_unique(
    g: Seq<(Seq<char>, Seq<Seq<char>>)>,
    root: Seq<char>,
    depth_limit: usize,
)
    ensures
        deep_children(g, root, depth_limit).no_duplicates(),
{
    if has_key(g, root) {
        let d: usize = if depth_limit == 0 {
            0
        } else {
            (depth_limit - 1) as usize
        };
        lemma_deep_visit_list_unique(g, root, adj(g, root), Some(d), Seq::empty());
    }
}

/// No two paths that `keep_unique` keeps hold the same vertices as many
/// times each; each path given holds the same vertices as one kept; and each
/// kept path is one given.
pub proof fn lemma_keep_unique(paths: Seq<Seq<Seq<char>>>)
    ensures
        forall|a: int, b: int|
            0 <= a < b < keep_unique(paths).len() ==> (#[trigger] keep_unique(paths)[a]).to_multiset()
                != (#[trigger] keep_unique(paths)[b]).to_multiset(),
        forall|i: int|
            0 <= i < paths.len() ==> exists|k: int|
                0 <= k < keep_unique(paths).len() && (#[trigger] keep_unique(paths)[k]).to_multiset()
                    == (#[trigger] paths[i]).to_multiset(),
        forall|k: int| 0 <= k < keep_unique(paths).len() ==> paths.contains(#[trigger] keep_unique(paths)[k]),
    decreases paths.len(),
{
    if paths.len() > 0 {
        let prev = paths.drop_last();
        lemma_keep_unique(prev);
        let kept = keep_unique(prev);
        let r = keep_unique(paths);
        assert forall|k: int| 0 <= k < r.len() implies paths.contains(#[trigger] r[k]) by {
            if k < kept.len() {
                assert(r[k] == kept[k]);
                let m = choose|m: int| 0 <= m < prev.len() && prev[m] == kept[k];
                assert(paths[m] == kept[k]);
            } else {
                assert(paths[paths.len() - 1] == r[k]);
            }
        }
        assert forall|i: int| 0 <= i < paths.len() implies exists|k: int|
            0 <= k < r.len() && (#[trigger] r[k]).to_multiset() == (#[trigger] paths[i]).to_multiset() by {
            if i < prev.len() {
                assert(prev[i] == paths[i]);
                let k = choose|k: int|
                    0 <= k < kept.len() && (#[trigger] kept[k]).to_multiset() == (
                    #[trigger] prev[i]).to_multiset();
                assert(r[k] == kept[k]);
            } else {
                if r.len() == kept.len() {
                    let k = choose|k: int|
                        0 <= k < kept.len() && (#[trigger] kept[k]).to_multiset()
                            == paths.last().to_multiset();
                    assert(r[k] == kept[k]);
                } else {
                    assert(r[kept.len() as int] == paths[i]);
                }
            }
        }
        assert forall|a: int, b: int| 0 <= a < b < r.len() implies (#[trigger] r[a]).to_multiset()
            != (#[trigger] r[b]).to_multiset() by {
            if b < kept.len() {
                assert(r[a] == kept[a]);
                assert(r[b] == kept[b]);
            } else {
                assert(r[a] == kept[a]);
                assert(r[b] == paths.last());
            }
        }
    }
}

/// A path kept by the backtracking holds each vertex once.
pub proof fn lemma_backtrack_unique(g: Seq<(Seq<char>, Seq<Seq<char>>)>, path: Seq<Seq<char>>)
    ensures
        backtrack(g, path).no_duplicates(),
{
    lemma_first_occurrences_unique(backtrack_from(g, path, path.len() as int));
}

proof fn lemma_first_occurrences_unique(s: Seq<Seq<char>>)
    ensures
        first_occurrences(s).no_duplicates(),
    decreases s.len(),
{
    if s.len() > 0 {
        lemma_first_occurrences_unique(s.drop_last());
    }
}

/// At depth 0, the walk from each vertex of a list lists just the
/// vertices not seen before.
proof fn lemma_visit_list_depth_zero(
    g: Seq<(Seq<char>, Seq<Seq<char>>)>,
    root: Seq<char>,
    list: Seq<Seq<char>>,
    visited: Seq<Seq<char>>,
)
    requires
        list.no_duplicates(),
        forall|m: int| 0 <= m < list.len() ==> has_key(g, #[trigger] list[m]),
        forall|m: int| 0 <= m < list.len() ==> !visited.contains(#[trigger] list[m]),
    ensures
        deep_visit_list(g, root, list, Some(0usize), visited) == list,
    decreases list.len(),
{
    if list.len() > 0 {
        let x = list[0];
        assert(has_key(g, list[0]));
        assert(!visited.contains(list[0]));
        assert(deep_visit(g, root, x, Some(0usize), visited) == seq![x]);
        let rest = list.drop_first();
        let seen = visited + seq![x];
        assert forall|m: int| 0 <= m < rest.len() implies !seen.contains(#[trigger] rest[m]) by {
            assert(rest[m] == list[m + 1]);
            assert(!visited.contains(list[m + 1]));
            if seen.contains(rest[m]) {
                let k = choose|k: int| 0 <= k < seen.len() && seen[k] == rest[m];
                if k < visited.len() {
                    assert(visited[k] == rest[m]);
                } else {
                    assert(list[0] == list[m + 1]);
                }
            }
        }
        assert forall|m: int| 0 <= m < rest.len() implies has_key(g, #[trigger] rest[m]) by {
            assert(rest[m] == list[m + 1]);
        }
        assert(rest.no_duplicates()) by {
            assert forall|a: int, b: int| 0 <= a < b < rest.len() implies rest[a] != rest[b] by {
                assert(rest[a] == list[a + 1] && rest[b] == list[b + 1]);
            }
        }
        lemma_visit_list_depth_zero(g, root, rest, seen);
        assert(seq![x] + rest =~= list);
    }
}

/// `get_deep_children(v, 1)` gives the direct children of `v`, in the
/// order its edges were added.
pub proof fn lemma_direct_children(g: Seq<(Seq<char>, Seq<Seq<char>>)>, v: Seq<char>)
    requires
        graph_wf(g),
    ensures
        deep_children(g, v, 1) == adj(g, v),
{
    lemma_key_index(g, v);
    if has_key(g, v) {
        let i = key_index(g, v)->0;
        let list = adj(g, v);
        assert(list == g[i].1);
        assert forall|m: int| 0 <= m < list.len() implies has_key(g, #[trigger] list[m]) by {
            assert(g[i].1[m] == list[m]);
        }
        lemma_visit_list_depth_zero(g, v, list, Seq::empty());
    }
}

/// Adding an edge from `from` to `to` appends `to` to the direct children
/// of `from` when both are distinct vertices not yet joined; the direct
/// children of every other vertex, and which vertices there are, stay.
pub proof fn lemma_add_edge_children(
    g: Seq<(Seq<char>, Seq<Seq<char>>)>,
    from: Seq<char>,
    to: Seq<char>,
    v: Seq<char>,
)
    requires
        graph_wf(g),
    ensures
        has_key(with_edge(g, from, to), v) == has_key(g, v),
        deep_children(with_edge(g, from, to), v, 1) == if v == from && from != to && has_key(g, from)
            && has_key(g, to) && !deep_children(g, from, 1).contains(to) {
            deep_children(g, from, 1).push(to)
        } else {
            deep_children(g, v, 1)
        },
{
    let h = with_edge(g, from, to);
    lemma_add_edge(g, from, to);
    lemma_direct_children(g, v);
    lemma_direct_children(g, from);
    lemma_direct_children(h, v);
    lemma_key_index(g, from);
    lemma_key_index(g, v);
    if !(from == to || !has_key(g, to) || !has_key(g, from) || adj(g, from).contains(to)) {
        let i = key_index(g, from)->0;
        assert(h == g.update(i, (from, g[i].1.push(to))));
        lemma_key_index_same_keys(h, g, v);
        if v != from && has_key(g, v) {
            let j = key_index(g, v)->0;
            assert(j != i);
            assert(h[j] == g[j]);
        }
    }
}

proof fn lemma_cycle_scan_unique(g: Seq<(Seq<char>, Seq<Seq<char>>)>, root: Seq<char>, deep: Seq<Seq<char>>)
    ensures
        forall|k: int|
            0 <= k < cycle_scan(g, root, deep).1.len() ==> (#[trigger] cycle_scan(g, root, deep).1[k]).no_duplicates(),
    decreases deep.len(),
{
    if deep.len() > 0 {
        lemma_cycle_scan_unique(g, root, deep.drop_last());
        let prev = cycle_scan(g, root, deep.drop_last());
        let x = deep.last();
        let list = if prev.0.contains(x) {
            prev.0
        } else {
            prev.0.push(x)
        };
        if x == root || list.contains(root) {
            let index = index_in(list, root)->0;
            let path = seq![root] + list.take(index + 1);
            lemma_backtrack_unique(g, path);
            let out = cycle_scan(g, root, deep).1;
            assert forall|k: int| 0 <= k < out.len() implies (#[trigger] out[k]).no_duplicates() by {
                if k < prev.1.len() {
                    assert(out[k] == prev.1[k]);
                }
            }
        }
    }
}

proof fn lemma_cycles_from_unique(g: Seq<(Seq<char>, Seq<Seq<char>>)>, pairs: Seq<(Seq<char>, Seq<char>)>)
    ensures
        forall|k: int|
            0 <= k < cycles_from(g, pairs).len() ==> (#[trigger] cycles_from(g, pairs)[k]).no_duplicates(),
    decreases pairs.len(),
{
    if pairs.len() > 0 {
        lemma_cycles_from_unique(g, pairs.drop_last());
        let (root, first) = pairs.last();
        let deep = deep_visit(g, root, first, None, Seq::empty());
        lemma_cycle_scan_unique(g, root, deep);
        let a = cycles_from(g, pairs.drop_last());
        let b = cycle_scan(g, root, deep).1;
        assert forall|k: int| 0 <= k < (a + b).len() implies (#[trigger] (a + b)[k]).no_duplicates() by {
            if k < a.len() {
                assert((a + b)[k] == a[k]);
            } else {
                assert((a + b)[k] == b[k - a.len()]);
            }
        }
    }
}

/// Each cycle that `find_cycles` lists goes through a vertex at most once,
/// and no two listed cycles hold the same vertices as many times each.
pub proof fn lemma_cycles_distinct(g: Seq<(Seq<char>, Seq<Seq<char>>)>)
    ensures
        forall|k: int| 0 <= k < cycles(g).len() ==> (#[trigger] cycles(g)[k]).no_duplicates(),
        forall|a: int, b: int|
            0 <= a < b < cycles(g).len() ==> (#[trigger] cycles(g)[a]).to_multiset()
                != (#[trigger] cycles(g)[b]).to_multiset(),
{
    let all = cycles_from(g, root_pairs(g));
    lemma_cycles_from_unique(g, root_pairs(g));
    lemma_keep_unique(all);
    assert forall|k: int| 0 <= k < cycles(g).len() implies (#[trigger] cycles(g)[k]).no_duplicates() by {
        assert(all.contains(keep_unique(all)[k]));
        let m = choose|m: int| 0 <= m < all.len() && all[m] == keep_unique(all)[k];
        assert(all[m].no_duplicates());
    }
}

} // verus!
