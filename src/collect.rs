//! The two traversal modes over a repository tree: tag discovery (statistics
//! only) and collection for one target tag; and the flat pattern scan of a
//! single repository used to generate a sparse-checkout file.
use vstd::prelude::*;

use crate::assoc::{assoc, insert_str, key_view, keys_distinct, lemma_assoc_dom, str_set, str_views};
use crate::attributes::{
    global_token, tags_in, counts_record, empty_model, record_model, state_tokens, token_matches, token_selected,
    tokens_for_state, AttrState, CollectModel, CollectState, TagCounts,
};
use crate::scan::{visits_view, walk, IndexEntry, RepoScan, RepoTree};
use crate::text::{split_trimmed, trimmed_pieces};

verus! {

/// The attribute state of the file a visit names.
pub open spec fn visit_state(t: Seq<RepoScan>, v: (Seq<char>, int, int)) -> AttrState {
    if 0 <= v.1 < t.len() && 0 <= v.2 < t[v.1].entries@.len() {
        t[v.1].entries@[v.2].state
    } else {
        AttrState::Unspecified
    }
}

/// `(pattern, token)` for each token.
pub open spec fn token_pairs(p: Seq<char>, toks: Seq<Seq<char>>) -> Seq<(Seq<char>, Seq<char>)> {
    toks.map_values(|x: Seq<char>| (p, x))
}

/// Every (pattern, token) pair the visits carry, in traversal order.
pub open spec fn visit_pairs(t: Seq<RepoScan>, vs: Seq<(Seq<char>, int, int)>) -> Seq<
    (Seq<char>, Seq<char>),
>
    decreases vs.len(),
{
    if vs.len() == 0 {
        Seq::empty()
    } else {
        visit_pairs(t, vs.drop_last()) + token_pairs(
            vs.last().0,
            state_tokens(visit_state(t, vs.last())),
        )
    }
}

/// The (pattern, token) pairs of a whole tree, in traversal order.
pub open spec fn tree_pairs(t: Seq<RepoScan>) -> Seq<(Seq<char>, Seq<char>)> {
    visit_pairs(t, walk(t, 0, Seq::empty()))
}

/// The counts of the tokens of `pairs`.
pub open spec fn counts_of(pairs: Seq<(Seq<char>, Seq<char>)>) -> Map<Seq<char>, usize>
    decreases pairs.len(),
{
    if pairs.len() == 0 {
        Map::empty()
    } else {
        counts_record(counts_of(pairs.drop_last()), pairs.last().1)
    }
}

/// The aggregate that recording each pair of `pairs` under `tag` builds.
pub open spec fn collect_of(pairs: Seq<(Seq<char>, Seq<char>)>, tag: Seq<char>) -> CollectModel
    decreases pairs.len(),
{
    if pairs.len() == 0 {
        empty_model()
    } else {
        record_model(collect_of(pairs.drop_last(), tag), pairs.last().0, pairs.last().1, tag)
    }
}

/// The state of the file a visit names, read with bounds checks.
fn state_at<'a>(tree: &'a RepoTree, repo: usize, entry: usize) -> (r: Option<&'a AttrState>)
    ensures
        match r {
            Some(st) => *st == visit_state(tree.repos@, (Seq::empty(), repo as int, entry as int)),
            None => visit_state(tree.repos@, (Seq::empty(), repo as int, entry as int))
                == AttrState::Unspecified,
        },
{
    if repo < tree.repos.len() && entry < tree.repos[repo].entries.len() {
        Some(&tree.repos[repo].entries[entry].state)
    } else {
        None
    }
}

/// Every tag found on the files of the tree, with its number of occurrences.
/// A file whose attribute is set without a value counts under the sentinel
/// `global`; a file with a value counts once under each of its tokens.
pub fn discover_all_tags(tree: &RepoTree) -> (r: TagCounts)
    requires
        tree.wf(),
    ensures
        r.wf(),
        r@ == counts_of(tree_pairs(tree.repos@)),
{
    let ghost t = tree.repos@;
    let visits = tree.visit_files();
    let ghost vs = visits_view(visits@);
    let mut counts = TagCounts::new();
    let mut k: usize = 0;
    while k < visits.len()
        invariant
            t == tree.repos@,
            vs == visits_view(visits@),
            k <= visits@.len(),
            counts.wf(),
            counts@ == counts_of(visit_pairs(t, vs.take(k as int))),
        decreases visits@.len() - k,
    {
        let v = &visits[k];
        let ghost before = visit_pairs(t, vs.take(k as int));
        let st_opt = state_at(tree, v.repo, v.entry);
        let toks: Vec<String> = match st_opt {
            Some(st) => tokens_for_state(st),
            None => Vec::new(),
        };
        let ghost tv = state_tokens(visit_state(t, vs[k as int]));
        proof {
            assert(vs[k as int] == (v.pattern@, v.repo as int, v.entry as int));
            if st_opt is None {
                assert(str_views(toks@) =~= tv);
            }
            assert(str_views(toks@) == tv);
        }
        let mut j: usize = 0;
        while j < toks.len()
            invariant
                k < visits@.len(),
                str_views(toks@) == tv,
                j <= toks@.len(),
                counts.wf(),
                counts@ == counts_of(before + token_pairs(vs[k as int].0, tv.take(j as int))),
            decreases toks@.len() - j,
        {
            let ghost pre = before + token_pairs(vs[k as int].0, tv.take(j as int));
            counts.record(toks[j].as_str());
            proof {
                let nxt = before + token_pairs(vs[k as int].0, tv.take(j + 1));
                assert(nxt =~= pre.push((vs[k as int].0, tv[j as int])));
                assert(nxt.drop_last() =~= pre);
            }
            j = j + 1;
        }
        proof {
            assert(vs.take(k + 1).drop_last() =~= vs.take(k as int));
            assert(tv.take(toks@.len() as int) =~= tv);
            assert(vs.take(k + 1).last() == vs[k as int]);
        }
        k = k + 1;
    }
    proof {
        assert(vs.take(visits@.len() as int) =~= vs);
    }
    counts
}

/// The files of the tree that carry a token satisfying `tag`, with their
/// tokens and the per-token counts. Every pair of the traversal goes through
/// [`CollectState::record_match`], which keeps only the selected tokens.
pub fn collect_matching_files(tree: &RepoTree, tag: &str) -> (r: CollectState)
    requires
        tree.wf(),
    ensures
        r.wf(),
        r@ == collect_of(tree_pairs(tree.repos@), tag@),
{
    let ghost t = tree.repos@;
    let visits = tree.visit_files();
    let ghost vs = visits_view(visits@);
    let mut state = CollectState::new();
    let mut k: usize = 0;
    while k < visits.len()
        invariant
            t == tree.repos@,
            vs == visits_view(visits@),
            k <= visits@.len(),
            state.wf(),
            state@ == collect_of(visit_pairs(t, vs.take(k as int)), tag@),
        decreases visits@.len() - k,
    {
        let v = &visits[k];
        let ghost before = visit_pairs(t, vs.take(k as int));
        let st_opt = state_at(tree, v.repo, v.entry);
        let toks: Vec<String> = match st_opt {
            Some(st) => tokens_for_state(st),
            None => Vec::new(),
        };
        let ghost tv = state_tokens(visit_state(t, vs[k as int]));
        proof {
            assert(vs[k as int] == (v.pattern@, v.repo as int, v.entry as int));
            if st_opt is None {
                assert(str_views(toks@) =~= tv);
            }
            assert(str_views(toks@) == tv);
        }
        let mut j: usize = 0;
        while j < toks.len()
            invariant
                k < visits@.len(),
                vs[k as int].0 == v.pattern@,
                str_views(toks@) == tv,
                j <= toks@.len(),
                state.wf(),
                state@ == collect_of(before + token_pairs(vs[k as int].0, tv.take(j as int)), tag@),
            decreases toks@.len() - j,
        {
            let ghost pre = before + token_pairs(vs[k as int].0, tv.take(j as int));
            state.record_match(v.pattern.as_str(), toks[j].as_str(), tag);
            proof {
                let nxt = before + token_pairs(vs[k as int].0, tv.take(j + 1));
                assert(nxt =~= pre.push((vs[k as int].0, tv[j as int])));
                assert(nxt.drop_last() =~= pre);
            }
            j = j + 1;
        }
        proof {
            assert(vs.take(k + 1).drop_last() =~= vs.take(k as int));
            assert(tv.take(toks@.len() as int) =~= tv);
            assert(vs.take(k + 1).last() == vs[k as int]);
        }
        k = k + 1;
    }
    proof {
        assert(vs.take(visits@.len() as int) =~= vs);
    }
    state
}

/// A file in state `st` belongs in the sparse-checkout file for `tag`: its
/// attribute is set without a value, or one of its trimmed comma-separated
/// pieces satisfies the filter.
pub open spec fn sparse_selected(st: AttrState, tag: Seq<char>) -> bool {
    match st {
        AttrState::Enabled => true,
        AttrState::Value(v) => some_piece_selected(v@, tag),
        _ => false,
    }
}

/// One of the trimmed comma-separated pieces of `v` satisfies the filter `tag`.
pub open spec fn some_piece_selected(v: Seq<char>, tag: Seq<char>) -> bool {
    exists|i: int|
        0 <= i < trimmed_pieces(v).len() && token_selected(#[trigger] trimmed_pieces(v)[i], tag)
}

/// The distinct paths of the selected entries among the first `k`, in index order.
pub open spec fn sparse_paths(es: Seq<IndexEntry>, tag: Seq<char>, k: int) -> Seq<Seq<char>>
    decreases k,
{
    if k <= 0 || k > es.len() {
        Seq::empty()
    } else {
        let r = sparse_paths(es, tag, k - 1);
        if sparse_selected(es[k - 1].state, tag) && !r.contains(es[k - 1].path@) {
            r.push(es[k - 1].path@)
        } else {
            r
        }
    }
}

/// Whether a file in state `st` belongs in the sparse-checkout file for `tag`.
pub fn entry_selected(st: &AttrState, tag: &str) -> (r: bool)
    ensures
        r == sparse_selected(*st, tag@),
{
    match st {
        AttrState::Enabled => true,
        AttrState::Value(v) => {
            let pieces = split_trimmed(v.as_str());
            let ghost pv = trimmed_pieces(v@);
            let mut i: usize = 0;
            while i < pieces.len()
                invariant
                    *st == AttrState::Value(*v),
                    pv == trimmed_pieces(v@),
                    str_views(pieces@) == pv,
                    i <= pieces@.len(),
                    forall|j: int| 0 <= j < i ==> !token_selected(#[trigger] pv[j], tag@),
                decreases pieces@.len() - i,
            {
                if token_matches(pieces[i].as_str(), tag) {
                    proof {
                        assert(pv[i as int] == pieces@[i as int]@);
                        assert(token_selected(trimmed_pieces(v@)[i as int], tag@));
                        assert(some_piece_selected(v@, tag@));
                        assert(sparse_selected(*st, tag@));
                    }
                    return true;
                }
                i = i + 1;
            }
            false
        },
        _ => false,
    }
}

/// The distinct paths of the entries of one repository that belong in the
/// sparse-checkout file for `tag`, in index order. Gitlinks are evaluated
/// like files and nested repositories are not entered.
pub fn collect_sparse_patterns(repo: &RepoScan, tag: &str) -> (r: Vec<String>)
    ensures
        str_views(r@) == sparse_paths(repo.entries@, tag@, repo.entries@.len() as int),
        str_views(r@).no_duplicates(),
{
    let es = &repo.entries;
    let mut out: Vec<String> = Vec::new();
    let mut k: usize = 0;
    while k < es.len()
        invariant
            es == &repo.entries,
            k <= es@.len(),
            str_views(out@) == sparse_paths(es@, tag@, k as int),
            str_views(out@).no_duplicates(),
        decreases es@.len() - k,
    {
        let e = &es[k];
        proof {
            assert(es@[k as int] == *e);
        }
        if entry_selected(&e.state, tag) {
            proof {
                assert(str_set(out@).contains(e.path@) == str_views(out@).contains(e.path@));
            }
            insert_str(&mut out, e.path.as_str());
        }
        k = k + 1;
    }
    out
}

/// `a` sorts no later than `b`: characters compared by code point, a proper
/// prefix first.
pub open spec fn lex_le(a: Seq<char>, b: Seq<char>) -> bool
    decreases a.len(),
{
    if a.len() == 0 {
        true
    } else if b.len() == 0 {
        false
    } else if a[0] != b[0] {
        (a[0] as u32) < (b[0] as u32)
    } else {
        lex_le(a.drop_first(), b.drop_first())
    }
}

/// The strings are in ascending order.
pub open spec fn sorted_strs(s: Seq<Seq<char>>) -> bool {
    forall|i: int, j: int| 0 <= i < j < s.len() ==> lex_le(#[trigger] s[i], #[trigger] s[j])
}

/// Relies on std's `slice::sort`: it permutes the elements into ascending
/// order by `Ord`, and `Ord` on `String` compares the UTF-8 bytes
/// lexicographically, which orders the characters by code point.
#[verifier::external_body]
pub(crate) fn sort_strings(v: &mut Vec<String>)
    ensures
        str_views(final(v)@).to_multiset() == str_views(old(v)@).to_multiset(),
        sorted_strs(str_views(final(v)@)),
{
    v.sort();
}

/// The collected patterns in ascending order, each once.
pub fn sorted_patterns(state: &CollectState) -> (r: Vec<String>)
    requires
        state.wf(),
    ensures
        str_set(r@) == state@.patterns,
        str_views(r@).no_duplicates(),
        sorted_strs(str_views(r@)),
{
    let mut v = state.patterns.clone();
    proof {
        assert(str_views(v@) =~= str_views(state.patterns@)) by {
            assert forall|a: int| 0 <= a < v@.len() implies v@[a]@ == state.patterns@[a]@ by {
                assert(cloned::<String>(state.patterns@[a], v@[a]));
            }
        }
    }
    let ghost before = str_views(v@);
    sort_strings(&mut v);
    proof {
        let after = str_views(v@);
        after.to_multiset_ensures();
        before.to_multiset_ensures();
        assert(after.to_set() =~= before.to_set()) by {
            assert forall|x: Seq<char>| after.contains(x) <==> before.contains(x) by {
                assert(after.to_multiset().count(x) == before.to_multiset().count(x));
            }
        }
        before.lemma_multiset_has_no_duplicates();
        after.lemma_multiset_has_no_duplicates_conv();
    }
    v
}

/// The keys of distinct-keyed pairs, in ascending order.
pub fn sort_keys<V>(entries: &Vec<(String, V)>) -> (r: Vec<String>)
    requires
        keys_distinct(key_view(entries@)),
    ensures
        r@.len() == entries@.len(),
        str_set(r@) == assoc(key_view(entries@)).dom(),
        str_views(r@).no_duplicates(),
        sorted_strs(str_views(r@)),
{
    let ghost kv = key_view(entries@);
    let mut keys: Vec<String> = Vec::new();
    let mut i: usize = 0;
    while i < entries.len()
        invariant
            kv == key_view(entries@),
            i <= entries@.len(),
            keys@.len() == i,
            forall|j: int| 0 <= j < i ==> #[trigger] keys@[j]@ == kv[j].0,
        decreases entries@.len() - i,
    {
        let k = entries[i].0.clone();
        keys.push(k);
        i = i + 1;
    }
    let ghost before = str_views(keys@);
    proof {
        assert(before.to_set() =~= assoc(kv).dom()) by {
            assert forall|x: Seq<char>| before.contains(x) <==> assoc(kv).dom().contains(x) by {
                lemma_assoc_dom(kv, x);
                if before.contains(x) {
                    let j = choose|j: int| 0 <= j < before.len() && before[j] == x;
                    assert(kv[j].0 == x);
                }
                if assoc(kv).dom().contains(x) {
                    let j = choose|j: int| 0 <= j < kv.len() && #[trigger] kv[j].0 == x;
                    assert(before[j] == x);
                }
            }
        }
        assert(before.no_duplicates()) by {
            assert forall|a: int, b: int| 0 <= a < before.len() && 0 <= b < before.len() && a != b
                implies before[a] != before[b] by {
                if a < b {
                    assert(kv[a].0 != kv[b].0);
                } else {
                    assert(kv[b].0 != kv[a].0);
                }
            }
        }
    }
    sort_strings(&mut keys);
    proof {
        let after = str_views(keys@);
        after.to_multiset_ensures();
        before.to_multiset_ensures();
        assert(after.to_set() =~= before.to_set()) by {
            assert forall|x: Seq<char>| after.contains(x) <==> before.contains(x) by {
                assert(after.to_multiset().count(x) == before.to_multiset().count(x));
            }
        }
        before.lemma_multiset_has_no_duplicates();
        after.lemma_multiset_has_no_duplicates_conv();
    }
    keys
}

proof fn lemma_collect_grows(pairs: Seq<(Seq<char>, Seq<char>)>, tag: Seq<char>, n: int, p: Seq<char>, x: Seq<char>)
    requires
        0 <= n <= pairs.len(),
        collect_of(pairs.take(n), tag).patterns.contains(p),
        tags_in(collect_of(pairs.take(n), tag).file_map, p).contains(x),
    ensures
        collect_of(pairs, tag).patterns.contains(p),
        tags_in(collect_of(pairs, tag).file_map, p).contains(x),
    decreases pairs.len() - n,
{
    if n < pairs.len() {
        let m = collect_of(pairs.take(n), tag);
        assert(pairs.take(n + 1).drop_last() =~= pairs.take(n));
        assert(pairs.take(n + 1).last() == pairs[n]);
        let m2 = collect_of(pairs.take(n + 1), tag);
        assert(m2.patterns.contains(p));
        assert(tags_in(m2.file_map, p).contains(x));
        lemma_collect_grows(pairs, tag, n + 1, p, x);
    } else {
        assert(pairs.take(n) =~= pairs);
    }
}

/// The sentinel is collected for every filter: when the traversal carries the
/// pair `(p, "global")`, the pattern `p` is collected and `global` is among its tags.
pub proof fn lemma_global_always_collected(
    pairs: Seq<(Seq<char>, Seq<char>)>,
    tag: Seq<char>,
    p: Seq<char>,
)
    requires
        pairs.contains((p, global_token())),
    ensures
        collect_of(pairs, tag).patterns.contains(p),
        tags_in(collect_of(pairs, tag).file_map, p).contains(global_token()),
{
    let i = choose|i: int| 0 <= i < pairs.len() && pairs[i] == (p, global_token());
    assert(pairs.take(i + 1).drop_last() =~= pairs.take(i));
    assert(pairs.take(i + 1).last() == pairs[i]);
    lemma_collect_grows(pairs, tag, i + 1, p, global_token());
}

proof fn lemma_visit_pairs_has(t: Seq<RepoScan>, vs: Seq<(Seq<char>, int, int)>, k: int, tok: Seq<char>)
    requires
        0 <= k < vs.len(),
        state_tokens(visit_state(t, vs[k])).contains(tok),
    ensures
        visit_pairs(t, vs).contains((vs[k].0, tok)),
    decreases vs.len(),
{
    let toks = state_tokens(visit_state(t, vs.last()));
    let front = visit_pairs(t, vs.drop_last());
    if k == vs.len() - 1 {
        let j = choose|j: int| 0 <= j < toks.len() && toks[j] == tok;
        assert(visit_pairs(t, vs)[front.len() + j] == (vs[k].0, tok));
    } else {
        assert(vs.drop_last()[k] == vs[k]);
        lemma_visit_pairs_has(t, vs.drop_last(), k, tok);
        let j = choose|j: int| 0 <= j < front.len() && front[j] == (vs[k].0, tok);
        assert(visit_pairs(t, vs)[j] == (vs[k].0, tok));
    }
}

/// A file of the tree whose attribute is set without a value is collected
/// under `global` whatever the filter.
pub proof fn lemma_enabled_file_collected(t: Seq<RepoScan>, tag: Seq<char>, k: int)
    requires
        0 <= k < walk(t, 0, Seq::empty()).len(),
        visit_state(t, walk(t, 0, Seq::empty())[k]) == AttrState::Enabled,
    ensures
        collect_of(tree_pairs(t), tag).patterns.contains(walk(t, 0, Seq::empty())[k].0),
        tags_in(collect_of(tree_pairs(t), tag).file_map, walk(t, 0, Seq::empty())[k].0).contains(
            global_token(),
        ),
{
    let vs = walk(t, 0, Seq::empty());
    assert(state_tokens(AttrState::Enabled)[0] == global_token());
    lemma_visit_pairs_has(t, vs, k, global_token());
    lemma_global_always_collected(tree_pairs(t), tag, vs[k].0);
}

/// Traversal is deterministic: two equal trees give the same tag counts and
/// the same collected aggregate, so the sorted patterns agree too.
pub proof fn lemma_collect_deterministic(t1: Seq<RepoScan>, t2: Seq<RepoScan>, tag: Seq<char>)
    requires
        t1 == t2,
    ensures
        counts_of(tree_pairs(t1)) == counts_of(tree_pairs(t2)),
        collect_of(tree_pairs(t1), tag) == collect_of(tree_pairs(t2), tag),
{
}

/// Sorts distinct strings into ascending order.
pub fn sort_unique(v: &mut Vec<String>)
    requires
        str_views(old(v)@).no_duplicates(),
    ensures
        str_set(final(v)@) == str_set(old(v)@),
        final(v)@.len() == old(v)@.len(),
        str_views(final(v)@).no_duplicates(),
        sorted_strs(str_views(final(v)@)),
{
    let ghost before = str_views(v@);
    sort_strings(v);
    proof {
        let after = str_views(v@);
        after.to_multiset_ensures();
        before.to_multiset_ensures();
        assert(after.to_set() =~= before.to_set()) by {
            assert forall|x: Seq<char>| after.contains(x) <==> before.contains(x) by {
                assert(after.to_multiset().count(x) == before.to_multiset().count(x));
            }
        }
        before.lemma_multiset_has_no_duplicates();
        after.lemma_multiset_has_no_duplicates_conv();
    }
}

} // verus!
