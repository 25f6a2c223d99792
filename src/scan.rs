//! A read-only snapshot of a repository and its nested submodules, and the
//! traversal that turns it into the sequence of files visited, each with the
//! pattern that names it from the top-level root.
use vstd::prelude::*;

use crate::assoc::{contains_str, str_set, str_views};
use crate::attributes::AttrState;
use crate::text::{join_path, join_text};

verus! {

/// What one index entry of a repository is.
pub enum EntryKind {
    /// A tracked file.
    File,
    /// A gitlink (a submodule pinned in the index); the snapshot of the nested
    /// repository when its working tree is checked out.
    Gitlink(Option<usize>),
}

/// One index entry: its path relative to the repository's working tree, the
/// state of the selected attribute on it, and its kind.
pub struct IndexEntry {
    pub path: String,
    pub state: AttrState,
    pub kind: EntryKind,
}

/// A submodule found in the repository's submodule metadata directory: its
/// working-tree-relative path, and its snapshot when the working tree exists.
pub struct DiscoveredModule {
    pub path: String,
    pub repo: Option<usize>,
}

/// One repository: its index entries in index order, and the submodules its
/// metadata directory declares.
pub struct RepoScan {
    pub entries: Vec<IndexEntry>,
    pub discovered: Vec<DiscoveredModule>,
}

/// All repositories reachable from the root, the root first. A nested
/// repository always stands after the one that refers to it.
pub struct RepoTree {
    pub repos: Vec<RepoScan>,
}

/// One visited file: its pattern, and where its entry stands in the tree.
pub struct FileVisit {
    pub pattern: String,
    pub repo: usize,
    pub entry: usize,
}

/// A visit as plain values: (pattern, repository, entry).
pub open spec fn visit_view(v: FileVisit) -> (Seq<char>, int, int) {
    (v.pattern@, v.repo as int, v.entry as int)
}

pub open spec fn visits_view(s: Seq<FileVisit>) -> Seq<(Seq<char>, int, int)> {
    s.map_values(|v: FileVisit| visit_view(v))
}

/// Every repository that an entry or a discovered module refers to stands after it.
pub open spec fn tree_wf(t: Seq<RepoScan>) -> bool {
    &&& forall|i: int, k: int|
        #![trigger t[i].entries@[k]]
        0 <= i < t.len() && 0 <= k < t[i].entries@.len() ==> match t[i].entries@[k].kind {
            EntryKind::Gitlink(Some(c)) => i < c < t.len(),
            _ => true,
        }
    &&& forall|i: int, k: int|
        #![trigger t[i].discovered@[k]]
        0 <= i < t.len() && 0 <= k < t[i].discovered@.len() ==> match t[i].discovered@[k].repo {
            Some(c) => i < c < t.len(),
            None => true,
        }
}

/// The paths of the gitlink entries among the first `k` entries, in order.
pub open spec fn gitlink_paths(es: Seq<IndexEntry>, k: int) -> Seq<Seq<char>>
    decreases k,
{
    if k <= 0 || k > es.len() {
        Seq::empty()
    } else {
        let r = gitlink_paths(es, k - 1);
        match es[k - 1].kind {
            EntryKind::Gitlink(_) => r.push(es[k - 1].path@),
            _ => r,
        }
    }
}

/// After the first `k` discovered modules: the positions chosen for a visit,
/// and the paths processed so far. A module is chosen when its working tree
/// exists and its path was processed neither as a gitlink nor as an earlier
/// discovered module.
pub open spec fn leftover_state(g: Set<Seq<char>>, ds: Seq<DiscoveredModule>, k: int) -> (
    Seq<int>,
    Set<Seq<char>>,
)
    decreases k,
{
    if k <= 0 || k > ds.len() {
        (Seq::empty(), g)
    } else {
        let (sel, done) = leftover_state(g, ds, k - 1);
        let d = ds[k - 1];
        if done.contains(d.path@) || d.repo is None {
            (sel, done)
        } else {
            (sel.push(k - 1), done.insert(d.path@))
        }
    }
}

/// The discovered modules to visit, given the gitlink paths `g` of the index.
pub open spec fn leftovers(g: Set<Seq<char>>, ds: Seq<DiscoveredModule>) -> Seq<int> {
    leftover_state(g, ds, ds.len() as int).0
}

/// The leftover discovered modules of repository `i`.
pub open spec fn repo_leftovers(t: Seq<RepoScan>, i: int) -> Seq<int> {
    leftovers(
        gitlink_paths(t[i].entries@, t[i].entries@.len() as int).to_set(),
        t[i].discovered@,
    )
}

/// Whether discovered module `j` of repository `i` is visited.
pub open spec fn leftover_chosen(t: Seq<RepoScan>, i: int, j: int) -> bool {
    let g = gitlink_paths(t[i].entries@, t[i].entries@.len() as int).to_set();
    let d = t[i].discovered@[j];
    !leftover_state(g, t[i].discovered@, j).1.contains(d.path@) && d.repo is Some
}

/// The files visited in repository `i` and below, under `prefix`.
pub open spec fn walk(t: Seq<RepoScan>, i: int, prefix: Seq<char>) -> Seq<(Seq<char>, int, int)>
    decreases t.len() - i, if 0 <= i < t.len() {
        t[i].entries@.len() + t[i].discovered@.len() + 1
    } else {
        0
    },
{
    if !(0 <= i < t.len()) {
        Seq::empty()
    } else {
        walk_entries(t, i, prefix, t[i].entries@.len() as int) + walk_leftovers(
            t,
            i,
            prefix,
            t[i].discovered@.len() as int,
        )
    }
}

/// The files visited through the first `k` index entries of repository `i`.
pub open spec fn walk_entries(t: Seq<RepoScan>, i: int, prefix: Seq<char>, k: int) -> Seq<
    (Seq<char>, int, int),
>
    decreases t.len() - i, k,
{
    if !(0 <= i < t.len()) || k <= 0 || k > t[i].entries@.len() {
        Seq::empty()
    } else {
        let e = t[i].entries@[k - 1];
        let before = walk_entries(t, i, prefix, k - 1);
        match e.kind {
            EntryKind::File => before.push((join_path(prefix, e.path@), i, k - 1)),
            EntryKind::Gitlink(Some(c)) => if i < c < t.len() {
                before + walk(t, c as int, join_path(prefix, e.path@))
            } else {
                before
            },
            EntryKind::Gitlink(None) => before,
        }
    }
}

/// The files visited through the first `k` discovered modules of repository `i`.
pub open spec fn walk_leftovers(t: Seq<RepoScan>, i: int, prefix: Seq<char>, k: int) -> Seq<
    (Seq<char>, int, int),
>
    decreases t.len() - i, k,
{
    if !(0 <= i < t.len()) || k <= 0 || k > t[i].discovered@.len() {
        Seq::empty()
    } else {
        let before = walk_leftovers(t, i, prefix, k - 1);
        let d = t[i].discovered@[k - 1];
        if leftover_chosen(t, i, k - 1) {
            match d.repo {
                Some(c) => if i < c < t.len() {
                    before + walk(t, c as int, join_path(prefix, d.path@))
                } else {
                    before
                },
                None => before,
            }
        } else {
            before
        }
    }
}

pub proof fn lemma_leftovers_bounded(g: Set<Seq<char>>, ds: Seq<DiscoveredModule>, k: int)
    requires
        0 <= k <= ds.len(),
    ensures
        leftover_state(g, ds, k).0.len() <= k,
        forall|a: int|
            0 <= a < leftover_state(g, ds, k).0.len() ==> 0 <= #[trigger] leftover_state(
                g,
                ds,
                k,
            ).0[a] < k,
    decreases k,
{
    if k > 0 {
        lemma_leftovers_bounded(g, ds, k - 1);
    }
}

proof fn lemma_leftover_state_facts(g: Set<Seq<char>>, ds: Seq<DiscoveredModule>, k: int)
    requires
        0 <= k <= ds.len(),
    ensures
        ({
            let (sel, done) = leftover_state(g, ds, k);
            &&& forall|a: int| 0 <= a < sel.len() ==> 0 <= #[trigger] sel[a] < k
            &&& forall|a: int| 0 <= a < sel.len() ==> !g.contains(ds[#[trigger] sel[a]].path@)
            &&& forall|a: int| 0 <= a < sel.len() ==> done.contains(ds[#[trigger] sel[a]].path@)
            &&& forall|a: int| 0 <= a < sel.len() ==> ds[#[trigger] sel[a]].repo is Some
            &&& forall|a: int, b: int|
                0 <= a < b < sel.len() ==> ds[#[trigger] sel[a]].path@ != ds[#[trigger] sel[b]].path@
            &&& forall|x: Seq<char>|
                #[trigger] done.contains(x) ==> g.contains(x) || exists|a: int|
                    0 <= a < sel.len() && ds[#[trigger] sel[a]].path@ == x
            &&& forall|x: Seq<char>| g.contains(x) ==> #[trigger] done.contains(x)
            &&& forall|j: int|
                0 <= j < k && (#[trigger] ds[j]).repo is Some ==> done.contains(ds[j].path@)
        }),
    decreases k,
{
    if k > 0 {
        lemma_leftover_state_facts(g, ds, k - 1);
        let (sel0, done0) = leftover_state(g, ds, k - 1);
        let (sel, done) = leftover_state(g, ds, k);
        let d = ds[k - 1];
        if !(done0.contains(d.path@) || d.repo is None) {
            assert(sel == sel0.push(k - 1));
            assert forall|x: Seq<char>| #[trigger] done.contains(x) implies g.contains(x) || exists|a: int|
                0 <= a < sel.len() && ds[#[trigger] sel[a]].path@ == x by {
                if x == d.path@ {
                    assert(ds[sel[sel.len() - 1]].path@ == x);
                } else {
                    assert(done0.contains(x));
                    if !g.contains(x) {
                        let a = choose|a: int| 0 <= a < sel0.len() && ds[#[trigger] sel0[a]].path@ == x;
                        assert(sel[a] == sel0[a]);
                    }
                }
            }
            assert forall|a: int, b: int|
                0 <= a < b < sel.len() implies ds[#[trigger] sel[a]].path@ != ds[#[trigger] sel[b]].path@ by {
                if b == sel.len() - 1 {
                    assert(sel[a] == sel0[a]);
                    assert(done0.contains(ds[sel0[a]].path@));
                } else {
                    assert(sel[a] == sel0[a] && sel[b] == sel0[b]);
                }
            }
            assert forall|a: int| 0 <= a < sel.len() implies !g.contains(ds[#[trigger] sel[a]].path@) by {
                if a < sel0.len() {
                    assert(sel[a] == sel0[a]);
                }
            }
            assert forall|a: int| 0 <= a < sel.len() implies done.contains(ds[#[trigger] sel[a]].path@) by {
                if a < sel0.len() {
                    assert(sel[a] == sel0[a]);
                }
            }
            assert forall|a: int| 0 <= a < sel.len() implies ds[#[trigger] sel[a]].repo is Some by {
                if a < sel0.len() {
                    assert(sel[a] == sel0[a]);
                }
            }
            assert forall|a: int| 0 <= a < sel.len() implies 0 <= #[trigger] sel[a] < k by {
                if a < sel0.len() {
                    assert(sel[a] == sel0[a]);
                }
            }
        }
    }
}

/// Each submodule is visited once. Of the discovered modules, the ones chosen
/// for a visit have paths that are not gitlink paths of the index (those are
/// visited through the index) and that differ from one another; and every
/// discovered module whose working tree exists is either chosen or has the
/// path of a gitlink or of a chosen module.
pub proof fn lemma_each_submodule_once(g: Set<Seq<char>>, ds: Seq<DiscoveredModule>)
    ensures
        forall|a: int|
            0 <= a < leftovers(g, ds).len() ==> !g.contains(
                ds[#[trigger] leftovers(g, ds)[a]].path@,
            ),
        forall|a: int, b: int|
            0 <= a < b < leftovers(g, ds).len() ==> ds[#[trigger] leftovers(g, ds)[a]].path@
                != ds[#[trigger] leftovers(g, ds)[b]].path@,
        forall|j: int|
            0 <= j < ds.len() && (#[trigger] ds[j]).repo is Some ==> g.contains(ds[j].path@)
                || exists|a: int|
                0 <= a < leftovers(g, ds).len() && ds[#[trigger] leftovers(g, ds)[a]].path@
                    == ds[j].path@,
{
    lemma_leftover_state_facts(g, ds, ds.len() as int);
    let (sel, done) = leftover_state(g, ds, ds.len() as int);
    assert forall|j: int|
        0 <= j < ds.len() && (#[trigger] ds[j]).repo is Some implies g.contains(ds[j].path@)
            || exists|a: int|
            0 <= a < leftovers(g, ds).len() && ds[#[trigger] leftovers(g, ds)[a]].path@
                == ds[j].path@ by {
        assert(done.contains(ds[j].path@));
    }
}

proof fn lemma_leftover_membership(g: Set<Seq<char>>, ds: Seq<DiscoveredModule>, k: int, j: int)
    requires
        0 <= j < k <= ds.len(),
    ensures
        leftover_state(g, ds, k).0.contains(j) <==> (!leftover_state(g, ds, j).1.contains(ds[j].path@)
            && ds[j].repo is Some),
    decreases k,
{
    lemma_leftovers_bounded(g, ds, k - 1);
    let sel0 = leftover_state(g, ds, k - 1).0;
    let sel = leftover_state(g, ds, k).0;
    if j < k - 1 {
        lemma_leftover_membership(g, ds, k - 1, j);
        if sel != sel0 {
            assert(sel == sel0.push(k - 1));
            if sel.contains(j) {
                let a = choose|a: int| 0 <= a < sel.len() && sel[a] == j;
                assert(a < sel0.len());
                assert(sel0[a] == j);
            }
            if sel0.contains(j) {
                let a = choose|a: int| 0 <= a < sel0.len() && sel0[a] == j;
                assert(sel[a] == j);
            }
        }
    } else {
        if sel.contains(j) && sel == sel0 {
            let a = choose|a: int| 0 <= a < sel0.len() && sel0[a] == j;
            assert(sel0[a] < k - 1);
        }
        if sel != sel0 {
            assert(sel[sel.len() - 1] == j);
        }
    }
}

/// The walk visits exactly the discovered modules that [`leftover_submodules`]
/// chooses for the repository's gitlink paths.
pub proof fn lemma_walk_follows_leftovers(t: Seq<RepoScan>, i: int, j: int)
    requires
        0 <= i < t.len(),
        0 <= j < t[i].discovered@.len(),
    ensures
        leftover_chosen(t, i, j) <==> repo_leftovers(t, i).contains(j),
{
    let g = gitlink_paths(t[i].entries@, t[i].entries@.len() as int).to_set();
    lemma_leftover_membership(g, t[i].discovered@, t[i].discovered@.len() as int, j);
}

/// The discovered modules to visit: those whose working tree exists and whose
/// path is neither a gitlink path nor the path of an earlier chosen module.
pub fn leftover_submodules(gitlinks: &Vec<String>, discovered: &Vec<DiscoveredModule>) -> (r: Vec<
    usize,
>)
    ensures
        r@.map_values(|x: usize| x as int) == leftovers(str_set(gitlinks@), discovered@),
{
    let mut done: Vec<String> = gitlinks.clone();
    let mut sel: Vec<usize> = Vec::new();
    let mut k: usize = 0;
    proof {
        assert(str_views(done@) =~= str_views(gitlinks@)) by {
            assert forall|a: int| 0 <= a < done@.len() implies done@[a]@ == gitlinks@[a]@ by {
                assert(cloned::<String>(gitlinks@[a], done@[a]));
            }
        }
    }
    while k < discovered.len()
        invariant
            k <= discovered@.len(),
            ({
                let st = leftover_state(str_set(gitlinks@), discovered@, k as int);
                &&& sel@.map_values(|x: usize| x as int) == st.0
                &&& str_set(done@) == st.1
            }),
        decreases discovered@.len() - k,
    {
        let d = &discovered[k];
        let ghost st = leftover_state(str_set(gitlinks@), discovered@, k as int);
        let ghost sel0 = sel@.map_values(|x: usize| x as int);
        let ghost done0 = str_views(done@);
        proof {
            assert(discovered@[k as int] == *d);
        }
        if d.repo.is_some() && !contains_str(&done, d.path.as_str()) {
            sel.push(k);
            done.push(d.path.clone());
            proof {
                assert(sel@.map_values(|x: usize| x as int) =~= sel0.push(k as int));
                let before = str_views(done@).drop_last();
                assert(before =~= done0);
                assert(str_views(done@) =~= before.push(d.path@));
                assert(before.push(d.path@) =~= before + seq![d.path@]);
                Seq::<Seq<char>>::lemma_to_set_insert_commutes(before, d.path@);
                assert(leftover_state(str_set(gitlinks@), discovered@, k + 1) == (
                    st.0.push(k as int),
                    st.1.insert(d.path@),
                ));
            }
        } else {
            proof {
                assert(leftover_state(str_set(gitlinks@), discovered@, k + 1) == st);
            }
        }
        k = k + 1;
    }
    sel
}

impl RepoTree {
    pub open spec fn wf(&self) -> bool {
        tree_wf(self.repos@)
    }

    /// The paths of the gitlink entries of repository `i`, in index order.
    fn gitlinks_of(&self, i: usize) -> (r: Vec<String>)
        requires
            i < self.repos@.len(),
        ensures
            str_views(r@) == gitlink_paths(
                self.repos@[i as int].entries@,
                self.repos@[i as int].entries@.len() as int,
            ),
    {
        let es = &self.repos[i].entries;
        let mut r: Vec<String> = Vec::new();
        let mut k: usize = 0;
        while k < es.len()
            invariant
                es == &self.repos@[i as int].entries,
                k <= es@.len(),
                str_views(r@) == gitlink_paths(es@, k as int),
            decreases es@.len() - k,
        {
            match &es[k].kind {
                EntryKind::Gitlink(_) => {
                    r.push(es[k].path.clone());
                    proof {
                        assert(str_views(r@) =~= gitlink_paths(es@, k as int).push(es@[k as int].path@));
                    }
                },
                _ => {},
            }
            k = k + 1;
        }
        r
    }

    /// Appends the files visited in repository `i` and below, under `prefix`.
    fn walk_repo(&self, i: usize, prefix: &str, out: &mut Vec<FileVisit>)
        requires
            self.wf(),
            i < self.repos@.len(),
        ensures
            visits_view(final(out)@) == visits_view(old(out)@) + walk(self.repos@, i as int, prefix@),
        decreases self.repos@.len() - i,
    {
        let ghost t = self.repos@;
        let ghost start = visits_view(out@);
        let es = &self.repos[i].entries;
        let mut k: usize = 0;
        while k < es.len()
            invariant
                self.wf(),
                t == self.repos@,
                i < t.len(),
                es == &t[i as int].entries,
                k <= es@.len(),
                visits_view(out@) == start + walk_entries(t, i as int, prefix@, k as int),
            decreases es@.len() - k,
        {
            let e = &es[k];
            let ghost mid = visits_view(out@);
            match &e.kind {
                EntryKind::File => {
                    let p = join_text(prefix, e.path.as_str());
                    out.push(FileVisit { pattern: p, repo: i, entry: k });
                    proof {
                        assert(visits_view(out@) =~= mid.push((p@, i as int, k as int)));
                    }
                },
                EntryKind::Gitlink(Some(c)) => {
                    proof {
                        assert(t[i as int].entries@[k as int] == *e);
                    }
                    let p = join_text(prefix, e.path.as_str());
                    self.walk_repo(*c, p.as_str(), out);
                },
                EntryKind::Gitlink(None) => {},
            }
            proof {
                assert(walk_entries(t, i as int, prefix@, k + 1) == ({
                    let e2 = t[i as int].entries@[k as int];
                    let before = walk_entries(t, i as int, prefix@, k as int);
                    match e2.kind {
                        EntryKind::File => before.push(
                            (join_path(prefix@, e2.path@), i as int, k as int),
                        ),
                        EntryKind::Gitlink(Some(c)) => if i < c < t.len() {
                            before + walk(t, c as int, join_path(prefix@, e2.path@))
                        } else {
                            before
                        },
                        EntryKind::Gitlink(None) => before,
                    }
                }));
                assert(visits_view(out@) =~= start + walk_entries(t, i as int, prefix@, k + 1));
            }
            k = k + 1;
        }
        let ghost after_entries = visits_view(out@);
        let gl = self.gitlinks_of(i);
        let ghost g = str_set(gl@);
        let ds = &self.repos[i].discovered;
        let mut done: Vec<String> = gl;
        let mut q: usize = 0;
        while q < ds.len()
            invariant
                self.wf(),
                t == self.repos@,
                i < t.len(),
                ds == &t[i as int].discovered,
                g == gitlink_paths(t[i as int].entries@, t[i as int].entries@.len() as int).to_set(),
                q <= ds@.len(),
                str_set(done@) == leftover_state(g, ds@, q as int).1,
                visits_view(out@) == after_entries + walk_leftovers(t, i as int, prefix@, q as int),
                after_entries == start + walk_entries(t, i as int, prefix@, t[i as int].entries@.len() as int),
            decreases ds@.len() - q,
        {
            let d = &ds[q];
            let ghost before = str_views(done@);
            if !contains_str(&done, d.path.as_str()) {
                match d.repo {
                    Some(c) => {
                        proof {
                            assert(t[i as int].discovered@[q as int] == *d);
                        }
                        let p = join_text(prefix, d.path.as_str());
                        self.walk_repo(c, p.as_str(), out);
                        done.push(d.path.clone());
                        proof {
                            assert(str_views(done@) =~= before + seq![d.path@]);
                            Seq::<Seq<char>>::lemma_to_set_insert_commutes(before, d.path@);
                        }
                    },
                    None => {},
                }
            }
            proof {
                assert(visits_view(out@) =~= after_entries + walk_leftovers(t, i as int, prefix@, q + 1));
            }
            q = q + 1;
        }
    }

    /// The files of the whole tree in traversal order, each with its pattern
    /// relative to the top-level root.
    pub fn visit_files(&self) -> (r: Vec<FileVisit>)
        requires
            self.wf(),
        ensures
            visits_view(r@) == walk(self.repos@, 0, Seq::empty()),
    {
        let mut out: Vec<FileVisit> = Vec::new();
        if self.repos.len() > 0 {
            proof {
                reveal_strlit("");
                assert(""@ =~= Seq::<char>::empty());
            }
            self.walk_repo(0, "", &mut out);
            proof {
                assert(visits_view(out@) =~= walk(self.repos@, 0, Seq::empty()));
            }
        } else {
            proof {
                assert(visits_view(out@) =~= walk(self.repos@, 0, Seq::empty()));
            }
        }
        out
    }
}

impl RepoTree {
    /// Whether every repository that an entry or a discovered module refers to
    /// stands after the one that refers to it.
    pub fn check_wf(&self) -> (r: bool)
        ensures
            r == self.wf(),
    {
        let n = self.repos.len();
        let mut i: usize = 0;
        while i < n
            invariant
                n == self.repos@.len(),
                i <= n,
                forall|a: int, k: int|
                    #![trigger self.repos@[a].entries@[k]]
                    0 <= a < i && 0 <= k < self.repos@[a].entries@.len() ==> match self.repos@[a].entries@[k].kind {
                        EntryKind::Gitlink(Some(c)) => a < c < n,
                        _ => true,
                    },
                forall|a: int, k: int|
                    #![trigger self.repos@[a].discovered@[k]]
                    0 <= a < i && 0 <= k < self.repos@[a].discovered@.len() ==> match self.repos@[a].discovered@[k].repo {
                        Some(c) => a < c < n,
                        None => true,
                    },
            decreases n - i,
        {
            let r = &self.repos[i];
            let mut k: usize = 0;
            while k < r.entries.len()
                invariant
                    n == self.repos@.len(),
                    i < n,
                    *r == self.repos@[i as int],
                    k <= r.entries@.len(),
                    forall|q: int|
                        #![trigger r.entries@[q]]
                        0 <= q < k ==> match r.entries@[q].kind {
                            EntryKind::Gitlink(Some(c)) => i < c < n,
                            _ => true,
                        },
                decreases r.entries@.len() - k,
            {
                match r.entries[k].kind {
                    EntryKind::Gitlink(Some(c)) => {
                        if !(i < c && c < n) {
                            proof {
                                assert(self.repos@[i as int].entries@[k as int] == r.entries@[k as int]);
                            }
                            return false;
                        }
                    },
                    _ => {},
                }
                k = k + 1;
            }
            let mut q: usize = 0;
            while q < r.discovered.len()
                invariant
                    n == self.repos@.len(),
                    i < n,
                    *r == self.repos@[i as int],
                    q <= r.discovered@.len(),
                    forall|p: int|
                        #![trigger r.discovered@[p]]
                        0 <= p < q ==> match r.discovered@[p].repo {
                            Some(c) => i < c < n,
                            None => true,
                        },
                decreases r.discovered@.len() - q,
            {
                match r.discovered[q].repo {
                    Some(c) => {
                        if !(i < c && c < n) {
                            proof {
                                assert(self.repos@[i as int].discovered@[q as int] == r.discovered@[q as int]);
                            }
                            return false;
                        }
                    },
                    None => {},
                }
                q = q + 1;
            }
            proof {
                assert forall|a: int, k: int|
                    #![trigger self.repos@[a].entries@[k]]
                    0 <= a < i + 1 && 0 <= k < self.repos@[a].entries@.len() implies match self.repos@[a].entries@[k].kind {
                        EntryKind::Gitlink(Some(c)) => a < c < n,
                        _ => true,
                    } by {
                    if a == i {
                        assert(self.repos@[a].entries@[k] == r.entries@[k]);
                    }
                }
                assert forall|a: int, k: int|
                    #![trigger self.repos@[a].discovered@[k]]
                    0 <= a < i + 1 && 0 <= k < self.repos@[a].discovered@.len() implies match self.repos@[a].discovered@[k].repo {
                        Some(c) => a < c < n,
                        None => true,
                    } by {
                    if a == i {
                        assert(self.repos@[a].discovered@[k] == r.discovered@[k]);
                    }
                }
            }
            i = i + 1;
        }
        true
    }
}

} // verus!
