//! POSIX path joining as `path.posix.join` does it on plain segments: join
//! with `/`, then drop the `.` and empty segments and resolve `..` against
//! the segment before it.

use vstd::prelude::*;

use crate::text::{chars_of, join, join_seq, string_from, to_string, view_strings};

verus! {

pub open spec fn dot() -> Seq<char> {
    seq!['.']
}

pub open spec fn dot_dot() -> Seq<char> {
    seq!['.', '.']
}

/// The parts that are not empty, in order.
pub open spec fn non_empty_parts(parts: Seq<Seq<char>>) -> Seq<Seq<char>>
    decreases parts.len(),
{
    if parts.len() == 0 {
        Seq::empty()
    } else {
        let rest = non_empty_parts(parts.drop_last());
        if parts.last().len() > 0 {
            rest.push(parts.last())
        } else {
            rest
        }
    }
}

/// The segments of `s` between its `/` characters (`str::split('/')`): one
/// more than there are `/`.
pub open spec fn split_slash(s: Seq<char>) -> Seq<Seq<char>>
    decreases s.len(),
{
    if s.len() == 0 {
        seq![Seq::empty()]
    } else {
        let t = split_slash(s.drop_last());
        if s.last() == '/' {
            t.push(Seq::empty())
        } else {
            t.update(t.len() - 1, t.last().push(s.last()))
        }
    }
}

pub proof fn lemma_split_slash_len(s: Seq<char>)
    ensures
        split_slash(s).len() >= 1,
    decreases s.len(),
{
    if s.len() > 0 {
        lemma_split_slash_len(s.drop_last());
    }
}

/// The kept segments after one more segment: `.` and empty ones change
/// nothing; `..` drops the segment before it, or is kept in a relative path
/// when there is none to drop (or that one is `..` too).
pub open spec fn normalize_step(stack: Seq<Seq<char>>, seg: Seq<char>, absolute: bool) -> Seq<
    Seq<char>,
> {
    if seg.len() == 0 || seg == dot() {
        stack
    } else if seg == dot_dot() {
        if !absolute && (stack.len() == 0 || stack.last() == dot_dot()) {
            stack.push(dot_dot())
        } else if stack.len() == 0 {
            stack
        } else {
            stack.drop_last()
        }
    } else {
        stack.push(seg)
    }
}

/// The kept segments after all of `segs`.
pub open spec fn normalize_segments(segs: Seq<Seq<char>>, absolute: bool) -> Seq<Seq<char>>
    decreases segs.len(),
{
    if segs.len() == 0 {
        Seq::empty()
    } else {
        normalize_step(normalize_segments(segs.drop_last(), absolute), segs.last(), absolute)
    }
}

/// `path.posix.join(...parts)`.
pub open spec fn spec_posix_join(parts: Seq<Seq<char>>) -> Seq<char> {
    let joined = join_seq(non_empty_parts(parts), seq!['/']);
    if joined.len() == 0 {
        dot()
    } else {
        let absolute = joined[0] == '/';
        let normalized = join_seq(normalize_segments(split_slash(joined), absolute), seq!['/']);
        if absolute {
            seq!['/'] + normalized
        } else if normalized.len() == 0 {
            dot()
        } else {
            normalized
        }
    }
}

/// The characters of each part.
pub open spec fn view_parts(parts: Seq<&str>) -> Seq<Seq<char>> {
    parts.map_values(|p: &str| p@)
}

fn is_dot(seg: &Vec<char>) -> (r: bool)
    ensures
        r == (seg@ == dot()),
{
    let r = seg.len() == 1 && seg[0] == '.';
    proof {
        if r {
            assert(seg@ =~= dot());
        }
    }
    r
}

fn is_dot_dot(seg: &Vec<char>) -> (r: bool)
    ensures
        r == (seg@ == dot_dot()),
{
    let r = seg.len() == 2 && seg[0] == '.' && seg[1] == '.';
    proof {
        if r {
            assert(seg@ =~= dot_dot());
        }
    }
    r
}

/// The kept segments after `seg`.
fn push_segment(stack: &mut Vec<Vec<char>>, seg: Vec<char>, absolute: bool)
    ensures
        final(stack)@.map_values(|s: Vec<char>| s@) == normalize_step(
            old(stack)@.map_values(|s: Vec<char>| s@),
            seg@,
            absolute,
        ),
{
    let ghost before = stack@.map_values(|s: Vec<char>| s@);
    if seg.len() == 0 || is_dot(&seg) {
        return;
    }
    if is_dot_dot(&seg) {
        let last_is_dot_dot = stack.len() > 0 && is_dot_dot(&stack[stack.len() - 1]);
        proof {
            if stack.len() > 0 {
                assert(before.last() == stack@[stack.len() - 1]@);
            }
        }
        if !absolute && (stack.len() == 0 || last_is_dot_dot) {
            stack.push(seg);
            proof {
                assert(stack@.map_values(|s: Vec<char>| s@) =~= before.push(dot_dot()));
            }
        } else if stack.len() > 0 {
            let _ = stack.pop();
            proof {
                assert(stack@.map_values(|s: Vec<char>| s@) =~= before.drop_last());
            }
        }
        return;
    }
    let ghost seg_view = seg@;
    stack.push(seg);
    proof {
        assert(stack@.map_values(|s: Vec<char>| s@) =~= before.push(seg_view));
    }
}

/// `path.posix.join(...parts)`: the non-empty parts joined with `/`, with
/// `.` and empty segments dropped and each `..` resolved against the
/// segment before it; `.` for an empty result.
pub fn posix_join(parts: &[&str]) -> (r: String)
    ensures
        r@ == spec_posix_join(view_parts(parts@)),
{
    let ghost pv = view_parts(parts@);
    let mut kept: Vec<String> = Vec::new();
    let mut i: usize = 0;
    while i < parts.len()
        invariant
            pv == view_parts(parts@),
            0 <= i <= parts@.len(),
            view_strings(kept@) == non_empty_parts(pv.take(i as int)),
        decreases parts.len() - i,
    {
        proof {
            assert(pv.take(i + 1).drop_last() =~= pv.take(i as int));
            assert(pv.take(i + 1).last() == parts@[i as int]@);
        }
        if !parts[i].is_empty() {
            let ghost before = kept@;
            kept.push(to_string(parts[i]));
            proof {
                crate::text::lemma_view_strings_push(before, kept@.last());
            }
        }
        i = i + 1;
    }
    proof {
        assert(pv.take(parts@.len() as int) =~= pv);
        reveal_strlit("/");
        assert("/"@ =~= seq!['/']);
    }
    let joined_string = join(&kept, "/");
    let joined = chars_of(joined_string.as_str());
    if joined.len() == 0 {
        proof {
            reveal_strlit(".");
        }
        return to_string(".");
    }
    let absolute = joined[0] == '/';
    let mut stack: Vec<Vec<char>> = Vec::new();
    let mut current: Vec<char> = Vec::new();
    proof {
        assert(joined@.take(0) =~= Seq::<char>::empty());
        assert(stack@.map_values(|s: Vec<char>| s@) =~= Seq::<Seq<char>>::empty());
    }
    let mut k: usize = 0;
    while k < joined.len()
        invariant
            0 <= k <= joined@.len(),
            split_slash(joined@.take(k as int)).len() >= 1,
            stack@.map_values(|s: Vec<char>| s@) == normalize_segments(
                split_slash(joined@.take(k as int)).drop_last(),
                absolute,
            ),
            current@ == split_slash(joined@.take(k as int)).last(),
        decreases joined.len() - k,
    {
        let ghost prefix = joined@.take(k as int);
        let ghost segs = split_slash(prefix);
        proof {
            assert(joined@.take(k + 1).drop_last() =~= prefix);
            assert(joined@.take(k + 1).last() == joined@[k as int]);
            lemma_split_slash_len(joined@.take(k + 1));
        }
        if joined[k] == '/' {
            let seg = current;
            current = Vec::new();
            push_segment(&mut stack, seg, absolute);
            proof {
                assert(split_slash(joined@.take(k + 1)) == segs.push(Seq::<char>::empty()));
                assert(segs.push(Seq::<char>::empty()).drop_last() =~= segs);
                assert(segs.drop_last().push(segs.last()) =~= segs);
            }
        } else {
            current.push(joined[k]);
            proof {
                let next = segs.update(segs.len() - 1, segs.last().push(joined@[k as int]));
                assert(split_slash(joined@.take(k + 1)) == next);
                assert(next.drop_last() =~= segs.drop_last());
            }
        }
        k = k + 1;
    }
    let ghost segs = split_slash(joined@);
    push_segment(&mut stack, current, absolute);
    proof {
        assert(joined@.take(joined@.len() as int) =~= joined@);
        assert(segs.drop_last().push(segs.last()) =~= segs);
    }
    let mut names: Vec<String> = Vec::new();
    let mut m: usize = 0;
    while m < stack.len()
        invariant
            0 <= m <= stack@.len(),
            view_strings(names@) == stack@.map_values(|s: Vec<char>| s@).take(m as int),
        decreases stack.len() - m,
    {
        let ghost before = names@;
        names.push(string_from(&stack[m]));
        proof {
            crate::text::lemma_view_strings_push(before, names@.last());
            assert(stack@.map_values(|s: Vec<char>| s@).take(m + 1) =~= stack@.map_values(
                |s: Vec<char>| s@,
            ).take(m as int).push(stack@[m as int]@));
        }
        m = m + 1;
    }
    proof {
        assert(stack@.map_values(|s: Vec<char>| s@).take(stack@.len() as int) =~= stack@.map_values(
            |s: Vec<char>| s@,
        ));
    }
    let normalized = join(&names, "/");
    if absolute {
        let mut r = to_string("/");
        r.append(normalized.as_str());
        return r;
    }
    if normalized.as_str().is_empty() {
        proof {
            reveal_strlit(".");
        }
        return to_string(".");
    }
    normalized
}

/// No `/` in the segment.
pub open spec fn no_slash(seg: Seq<char>) -> bool {
    !seg.contains('/')
}

/// Appending text without `/` extends the last segment.
proof fn lemma_split_append(s: Seq<char>, t: Seq<char>)
    requires
        no_slash(t),
    ensures
        split_slash(s + t) == split_slash(s).update(
            split_slash(s).len() - 1,
            split_slash(s).last() + t,
        ),
    decreases t.len(),
{
    lemma_split_slash_len(s);
    if t.len() == 0 {
        assert(s + t =~= s);
        assert(split_slash(s).last() + t =~= split_slash(s).last());
        assert(split_slash(s).update(split_slash(s).len() - 1, split_slash(s).last()) =~= split_slash(s));
    } else {
        let t0 = t.drop_last();
        assert(no_slash(t0)) by {
            if t0.contains('/') {
                let k = choose|k: int| 0 <= k < t0.len() && t0[k] == '/';
                assert(t[k] == '/');
            }
        }
        lemma_split_append(s, t0);
        assert((s + t).drop_last() =~= s + t0);
        assert((s + t).last() == t.last());
        assert(t.last() != '/') by {
            assert(t[t.len() - 1] == t.last());
        }
        let a = split_slash(s);
        let b = a.update(a.len() - 1, a.last() + t0);
        lemma_split_slash_len(s + t0);
        assert(b.last() == a.last() + t0);
        assert(b.update(b.len() - 1, b.last().push(t.last())) =~= a.update(a.len() - 1, a.last() + t)) by {
            assert(a.last() + t0 + seq![t.last()] =~= a.last() + t);
            assert((a.last() + t0).push(t.last()) =~= a.last() + t);
        }
    }
}

/// Segments without `/`, joined with `/`, split back into themselves.
pub proof fn lemma_split_join(segs: Seq<Seq<char>>)
    requires
        segs.len() >= 1,
        forall|k: int| 0 <= k < segs.len() ==> no_slash(#[trigger] segs[k]),
    ensures
        split_slash(join_seq(segs, seq!['/'])) == segs,
    decreases segs.len(),
{
    if segs.len() == 1 {
        lemma_split_append(Seq::empty(), segs[0]);
        assert(Seq::<char>::empty() + segs[0] =~= segs[0]);
        assert(split_slash(Seq::<char>::empty()) == seq![Seq::<char>::empty()]);
        assert(Seq::<char>::empty() + segs[0] =~= segs[0]);
        assert(seq![Seq::<char>::empty()].update(0, Seq::<char>::empty() + segs[0]) =~= segs);
    } else {
        let init = segs.drop_last();
        assert forall|k: int| 0 <= k < init.len() implies no_slash(#[trigger] init[k]) by {
            assert(init[k] == segs[k]);
        }
        lemma_split_join(init);
        let j = join_seq(init, seq!['/']);
        let js = j + seq!['/'];
        assert(join_seq(segs, seq!['/']) == j + seq!['/'] + segs.last());
        assert(js.drop_last() =~= j);
        assert(split_slash(js) == split_slash(j).push(Seq::empty()));
        lemma_split_append(js, segs.last());
        let a = split_slash(js);
        assert(a.last() == Seq::<char>::empty());
        assert(Seq::<char>::empty() + segs.last() =~= segs.last());
        assert(a.update(a.len() - 1, a.last() + segs.last()) =~= segs);
    }
}

/// No segment of a split holds `/`.
proof fn lemma_split_no_slash(s: Seq<char>)
    ensures
        forall|k: int| 0 <= k < split_slash(s).len() ==> no_slash(#[trigger] split_slash(s)[k]),
    decreases s.len(),
{
    if s.len() > 0 {
        let t = split_slash(s.drop_last());
        lemma_split_no_slash(s.drop_last());
        lemma_split_slash_len(s.drop_last());
        if s.last() != '/' {
            let l = t.last().push(s.last());
            assert(no_slash(l)) by {
                if l.contains('/') {
                    let k = choose|k: int| 0 <= k < l.len() && l[k] == '/';
                    if k < t.last().len() {
                        assert(t[t.len() - 1][k] == '/');
                        assert(t[t.len() - 1].contains('/'));
                    }
                }
            }
            assert forall|k: int| 0 <= k < split_slash(s).len() implies no_slash(#[trigger] split_slash(s)[k]) by {
                if k < t.len() - 1 {
                    assert(split_slash(s)[k] == t[k]);
                }
            }
        } else {
            assert(no_slash(Seq::<char>::empty()));
            assert forall|k: int| 0 <= k < split_slash(s).len() implies no_slash(#[trigger] split_slash(s)[k]) by {
                if k < t.len() {
                    assert(split_slash(s)[k] == t[k]);
                }
            }
        }
    }
}

/// What `normalize_segments` keeps: segments that are neither empty nor `.`
/// and hold no `/`; in an absolute path no `..`; in a relative one, `..`
/// only before every other segment.
pub open spec fn stack_ok(stack: Seq<Seq<char>>, absolute: bool) -> bool {
    forall|k: int|
        0 <= k < stack.len() ==> {
            &&& (#[trigger] stack[k]).len() > 0
            &&& no_slash(stack[k])
            &&& stack[k] != dot()
            &&& absolute ==> stack[k] != dot_dot()
            &&& stack[k] == dot_dot() ==> forall|m: int| 0 <= m < k ==> stack[m] == dot_dot()
        }
}

proof fn lemma_normalize_ok(segs: Seq<Seq<char>>, absolute: bool)
    requires
        forall|k: int| 0 <= k < segs.len() ==> no_slash(#[trigger] segs[k]),
    ensures
        stack_ok(normalize_segments(segs, absolute), absolute),
    decreases segs.len(),
{
    if segs.len() > 0 {
        let init = segs.drop_last();
        assert forall|k: int| 0 <= k < init.len() implies no_slash(#[trigger] init[k]) by {
            assert(init[k] == segs[k]);
        }
        lemma_normalize_ok(init, absolute);
        let st = normalize_segments(init, absolute);
        let seg = segs.last();
        assert(no_slash(seg)) by {
            assert(segs[segs.len() - 1] == seg);
        }
        let out = normalize_step(st, seg, absolute);
        if seg.len() == 0 || seg == dot() {
        } else if seg == dot_dot() {
            if !absolute && (st.len() == 0 || st.last() == dot_dot()) {
                assert(no_slash(dot_dot())) by {
                    if dot_dot().contains('/') {
                        let k = choose|k: int| 0 <= k < dot_dot().len() && dot_dot()[k] == '/';
                    }
                }
                assert forall|k: int| 0 <= k < out.len() implies {
                    &&& (#[trigger] out[k]).len() > 0
                    &&& no_slash(out[k])
                    &&& out[k] != dot()
                    &&& absolute ==> out[k] != dot_dot()
                    &&& out[k] == dot_dot() ==> forall|m: int| 0 <= m < k ==> out[m] == dot_dot()
                } by {
                    if k < st.len() {
                        assert(out[k] == st[k]);
                    } else {
                        assert(out[k] == dot_dot());
                        assert forall|m: int| 0 <= m < k implies out[m] == dot_dot() by {
                            assert(out[m] == st[m]);
                            if m < st.len() - 1 {
                                assert(st[st.len() - 1] == dot_dot());
                            }
                        }
                    }
                }
            } else if st.len() > 0 {
                assert forall|k: int| 0 <= k < out.len() implies {
                    &&& (#[trigger] out[k]).len() > 0
                    &&& no_slash(out[k])
                    &&& out[k] != dot()
                    &&& absolute ==> out[k] != dot_dot()
                    &&& out[k] == dot_dot() ==> forall|m: int| 0 <= m < k ==> out[m] == dot_dot()
                } by {
                    assert(out[k] == st[k]);
                    if out[k] == dot_dot() {
                        assert forall|m: int| 0 <= m < k implies out[m] == dot_dot() by {
                            assert(out[m] == st[m]);
                        }
                    }
                }
            }
        } else {
            assert forall|k: int| 0 <= k < out.len() implies {
                &&& (#[trigger] out[k]).len() > 0
                &&& no_slash(out[k])
                &&& out[k] != dot()
                &&& absolute ==> out[k] != dot_dot()
                &&& out[k] == dot_dot() ==> forall|m: int| 0 <= m < k ==> out[m] == dot_dot()
            } by {
                if k < st.len() {
                    assert(out[k] == st[k]);
                    if out[k] == dot_dot() {
                        assert forall|m: int| 0 <= m < k implies out[m] == dot_dot() by {
                            assert(out[m] == st[m]);
                        }
                    }
                }
            }
        }
    }
}

/// After segments that keep nothing, a kept stack keeps itself.
proof fn lemma_normalize_kept(lead: Seq<Seq<char>>, stack: Seq<Seq<char>>, absolute: bool)
    requires
        normalize_segments(lead, absolute) == Seq::<Seq<char>>::empty(),
        stack_ok(stack, absolute),
    ensures
        normalize_segments(lead + stack, absolute) == stack,
    decreases stack.len(),
{
    if stack.len() == 0 {
        assert(lead + stack =~= lead);
    } else {
        let init = stack.drop_last();
        assert(stack_ok(init, absolute)) by {
            assert forall|k: int| 0 <= k < init.len() implies {
                &&& (#[trigger] init[k]).len() > 0
                &&& no_slash(init[k])
                &&& init[k] != dot()
                &&& absolute ==> init[k] != dot_dot()
                &&& init[k] == dot_dot() ==> forall|m: int| 0 <= m < k ==> init[m] == dot_dot()
            } by {
                assert(init[k] == stack[k]);
                if init[k] == dot_dot() {
                    assert forall|m: int| 0 <= m < k implies init[m] == dot_dot() by {
                        assert(init[m] == stack[m]);
                    }
                }
            }
        }
        lemma_normalize_kept(lead, init, absolute);
        assert((lead + stack).drop_last() =~= lead + init);
        assert((lead + stack).last() == stack.last());
        let seg = stack.last();
        assert(stack[stack.len() - 1] == seg);
        if seg == dot_dot() {
            if init.len() > 0 {
                assert(init.last() == stack[init.len() - 1]);
            }
        }
        assert(init.push(seg) =~= stack);
    }
}

proof fn lemma_join_cons(x: Seq<char>, list: Seq<Seq<char>>, sep: Seq<char>)
    requires
        list.len() >= 1,
    ensures
        join_seq(seq![x] + list, sep) == x + sep + join_seq(list, sep),
    decreases list.len(),
{
    let whole = seq![x] + list;
    assert(whole.len() >= 2);
    assert(whole.last() == list.last());
    if list.len() == 1 {
        assert(whole.drop_last() =~= seq![x]);
        assert(join_seq(seq![x], sep) == x);
        assert(join_seq(list, sep) == list[0]);
        assert(join_seq(whole, sep) == join_seq(whole.drop_last(), sep) + sep + whole.last());
    } else {
        lemma_join_cons(x, list.drop_last(), sep);
        assert(whole.drop_last() =~= seq![x] + list.drop_last());
        assert(whole.last() == list.last());
        assert(x + sep + join_seq(list.drop_last(), sep) + sep + list.last() =~= x + sep + (join_seq(
            list.drop_last(),
            sep,
        ) + sep + list.last()));
    }
}

proof fn lemma_join_first(list: Seq<Seq<char>>, sep: Seq<char>)
    requires
        list.len() >= 1,
        list[0].len() > 0,
    ensures
        join_seq(list, sep).len() > 0,
        join_seq(list, sep)[0] == list[0][0],
    decreases list.len(),
{
    if list.len() > 1 {
        let init = list.drop_last();
        assert(init[0] == list[0]);
        lemma_join_first(init, sep);
    }
}

/// A joined path joined again on its own is itself: never empty; `.`, or
/// `/` and segments that are neither empty, `.` nor `..`, or segments that
/// are neither empty nor `.`, with `..` only before all others.
pub proof fn lemma_posix_join_idempotent(parts: Seq<Seq<char>>)
    ensures
        spec_posix_join(parts).len() > 0,
        spec_posix_join(seq![spec_posix_join(parts)]) == spec_posix_join(parts),
        spec_posix_join(parts) == dot() || exists|stack: Seq<Seq<char>>, absolute: bool|
            #![trigger stack_ok(stack, absolute)]
            stack_ok(stack, absolute) && spec_posix_join(parts) == if absolute {
                seq!['/'] + join_seq(stack, seq!['/'])
            } else {
                join_seq(stack, seq!['/'])
            },
{
    let r = spec_posix_join(parts);
    let joined = join_seq(non_empty_parts(parts), seq!['/']);
    let e = Seq::<char>::empty();
    if joined.len() > 0 {
        let absolute = joined[0] == '/';
        let segs = split_slash(joined);
        lemma_split_no_slash(joined);
        lemma_normalize_ok(segs, absolute);
        let stack = normalize_segments(segs, absolute);
        assert(stack_ok(stack, absolute));
    }
    assert(r.len() > 0) by {
        if joined.len() > 0 {
            let absolute = joined[0] == '/';
            let stack = normalize_segments(split_slash(joined), absolute);
            if absolute {
                assert((seq!['/'] + join_seq(stack, seq!['/'])).len() > 0);
            }
        }
    }
    let single = seq![r];
    assert(single.drop_last() =~= Seq::<Seq<char>>::empty());
    assert(non_empty_parts(single.drop_last()) == Seq::<Seq<char>>::empty());
    assert(single.last() == r);
    assert(Seq::<Seq<char>>::empty().push(r) =~= seq![r]);
    assert(non_empty_parts(single) == seq![r]);
    assert(join_seq(seq![r], seq!['/']) == r);
    assert(no_slash(e));
    if r == dot() {
        assert(no_slash(dot())) by {
            if dot().contains('/') {
                let k = choose|k: int| 0 <= k < dot().len() && dot()[k] == '/';
            }
        }
        assert(join_seq(seq![dot()], seq!['/']) == dot());
        lemma_split_join(seq![dot()]);
        assert(seq![dot()].drop_last() =~= Seq::<Seq<char>>::empty());
        assert(seq![dot()].last() == dot());
        assert(normalize_segments(Seq::<Seq<char>>::empty(), false) == Seq::<Seq<char>>::empty());
        assert(normalize_segments(seq![dot()], false) == Seq::<Seq<char>>::empty());
    } else {
        let absolute = joined[0] == '/';
        let stack = normalize_segments(split_slash(joined), absolute);
        let empty_list = Seq::<Seq<char>>::empty();
        if absolute {
            if stack.len() == 0 {
                assert(join_seq(stack, seq!['/']) == e);
                assert(r =~= seq!['/']);
                let sp = split_slash(seq!['/']);
                assert(seq!['/'].drop_last() =~= e);
                assert(sp == split_slash(e).push(e));
                assert(sp =~= seq![e, e]);
                assert(seq![e, e].drop_last() =~= seq![e]);
                assert(seq![e].drop_last() =~= empty_list);
                assert(seq![e].last() == e);
                assert(normalize_segments(empty_list, true) == empty_list);
                assert(normalize_segments(seq![e], true) == empty_list);
                assert(sp.drop_last() =~= seq![e]);
                assert(sp.last() == e);
                assert(normalize_segments(sp, true) == empty_list);
            } else {
                lemma_join_cons(e, stack, seq!['/']);
                assert(e + seq!['/'] + join_seq(stack, seq!['/']) =~= r);
                let lead = seq![e];
                assert(lead.drop_last() =~= empty_list);
                assert(lead.last() == e);
                assert(normalize_segments(empty_list, true) == empty_list);
                assert(normalize_segments(lead, true) == empty_list);
                assert forall|k: int| 0 <= k < (lead + stack).len() implies no_slash(
                    #[trigger] (lead + stack)[k],
                ) by {
                    if k > 0 {
                        assert((lead + stack)[k] == stack[k - 1]);
                    }
                }
                lemma_split_join(lead + stack);
                lemma_normalize_kept(lead, stack, true);
            }
        } else {
            let normalized = join_seq(stack, seq!['/']);
            assert(normalized.len() > 0);
            assert(r == normalized);
            assert(stack.len() > 0);
            lemma_join_first(stack, seq!['/']);
            assert(no_slash(stack[0]));
            assert(r[0] != '/') by {
                if r[0] == '/' {
                    assert(stack[0][0] == '/');
                    assert(stack[0].contains('/'));
                }
            }
            lemma_split_join(stack);
            assert(normalize_segments(empty_list, false) == empty_list);
            lemma_normalize_kept(empty_list, stack, false);
            assert(empty_list + stack =~= stack);
        }
    }
}

} // verus!
