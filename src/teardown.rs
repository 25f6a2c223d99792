//! The decisions of submodule teardown: the modules directory to delete and
//! the emptied parent directories to prune after it.
use vstd::prelude::*;

use crate::assoc::str_views;
use crate::text::{join_path, join_text, slice_chars, starts_with_text};

verus! {

/// The path without its last `/` and what follows it; empty when there is no `/`.
pub open spec fn parent_of(p: Seq<char>) -> Seq<char>
    decreases p.len(),
{
    if p.len() == 0 {
        p
    } else if p.last() == '/' {
        p.drop_last()
    } else {
        parent_of(p.drop_last())
    }
}

/// `p` lies strictly inside `root`: it starts with `root/` and goes on.
pub open spec fn strictly_under(p: Seq<char>, root: Seq<char>) -> bool {
    p.len() > root.len() + 1 && p.subrange(0, root.len() as int) == root && p[root.len() as int]
        == '/'
}

pub proof fn lemma_parent_shorter(p: Seq<char>)
    ensures
        p.len() > 0 ==> parent_of(p).len() < p.len(),
        parent_of(p).len() <= p.len(),
    decreases p.len(),
{
    if p.len() > 0 && p.last() != '/' {
        lemma_parent_shorter(p.drop_last());
    }
}

/// The directories to try to remove, in order: `p`, then each parent, as long
/// as it lies strictly inside `root`. Removal stops at the first directory
/// that cannot be removed (it is not empty).
pub open spec fn prune_order(p: Seq<char>, root: Seq<char>) -> Seq<Seq<char>>
    decreases p.len(),
{
    if strictly_under(p, root) {
        if parent_of(p).len() < p.len() {
            seq![p] + prune_order(parent_of(p), root)
        } else {
            seq![p]
        }
    } else {
        Seq::empty()
    }
}

proof fn lemma_parent_at(p: Seq<char>, j: int)
    requires
        0 <= j <= p.len(),
        forall|k: int| j <= k < p.len() ==> p[k] != '/',
        j == 0 || p[j - 1] == '/',
    ensures
        parent_of(p) == if j == 0 {
            Seq::<char>::empty()
        } else {
            p.subrange(0, j - 1)
        },
    decreases p.len(),
{
    if p.len() > 0 {
        if j == p.len() {
            assert(p.last() == '/');
            assert(p.drop_last() =~= p.subrange(0, j - 1));
        } else {
            let d = p.drop_last();
            assert forall|k: int| j <= k < d.len() implies d[k] != '/' by {
                assert(d[k] == p[k]);
            }
            if j > 0 {
                assert(d[j - 1] == p[j - 1]);
            }
            lemma_parent_at(d, j);
            if j > 0 {
                assert(d.subrange(0, j - 1) =~= p.subrange(0, j - 1));
            }
        }
    }
}

/// The parent directory of a path (see [`parent_of`]).
pub fn parent_text(p: &str) -> (r: String)
    ensures
        r@ == parent_of(p@),
{
    let n = p.unicode_len();
    let mut j: usize = n;
    while j > 0 && p.get_char(j - 1) != '/'
        invariant
            n == p@.len(),
            j <= n,
            forall|k: int| j <= k < n ==> p@[k] != '/',
        decreases j,
    {
        j = j - 1;
    }
    proof {
        lemma_parent_at(p@, j as int);
    }
    if j == 0 {
        String::new()
    } else {
        slice_chars(p, 0, j - 1)
    }
}

/// Whether `p` lies strictly inside `root`.
pub fn is_strictly_under(p: &str, root: &str) -> (r: bool)
    ensures
        r == strictly_under(p@, root@),
{
    let n = p.unicode_len();
    let m = root.unicode_len();
    if m == usize::MAX || n <= m + 1 {
        return false;
    }
    if !starts_with_text(p, root) {
        return false;
    }
    p.get_char(m) == '/'
}

/// The directories to try to remove after the modules directory of a
/// submodule was deleted: its parent, then each further parent, while it lies
/// strictly inside the modules root.
pub fn prune_empty_parents(start: &str, modules_root: &str) -> (r: Vec<String>)
    ensures
        str_views(r@) == prune_order(start@, modules_root@),
{
    let mut out: Vec<String> = Vec::new();
    let mut cur = start.to_owned();
    proof {
        assert(str_views(out@) + prune_order(cur@, modules_root@) =~= prune_order(start@, modules_root@));
    }
    while is_strictly_under(cur.as_str(), modules_root)
        invariant
            str_views(out@) + prune_order(cur@, modules_root@) == prune_order(start@, modules_root@),
        decreases cur@.len(),
    {
        let next = parent_text(cur.as_str());
        proof {
            lemma_parent_shorter(cur@);
        }
        let ghost before = str_views(out@);
        let ghost c = cur@;
        out.push(cur);
        proof {
            assert(str_views(out@) =~= before.push(c));
            assert(prune_order(c, modules_root@) =~= seq![c] + prune_order(parent_of(c), modules_root@));
            assert(before.push(c) + prune_order(parent_of(c), modules_root@) =~= before + (seq![c]
                + prune_order(parent_of(c), modules_root@)));
        }
        cur = next;
    }
    proof {
        assert(str_views(out@) + Seq::<Seq<char>>::empty() =~= str_views(out@));
    }
    out
}

/// The modules directory of a submodule: `<git dir>/modules/<relative path>`.
pub fn modules_path(git_dir: &str, submodule_path_relative: &str) -> (r: String)
    ensures
        r@ == join_path(join_path(git_dir@, seq!['m', 'o', 'd', 'u', 'l', 'e', 's']), submodule_path_relative@),
{
    proof {
        reveal_strlit("modules");
        assert("modules"@ =~= seq!['m', 'o', 'd', 'u', 'l', 'e', 's']);
    }
    let root = join_text(git_dir, "modules");
    join_text(root.as_str(), submodule_path_relative)
}

/// Pruning never reaches the modules root: every directory it tries lies
/// strictly inside the root, so the root itself, and with it the modules of
/// other submodules, stays.
pub proof fn lemma_prune_keeps_root(p: Seq<char>, root: Seq<char>)
    ensures
        forall|i: int|
            0 <= i < prune_order(p, root).len() ==> strictly_under(#[trigger] prune_order(p, root)[i], root),
        !prune_order(p, root).contains(root),
    decreases p.len(),
{
    if strictly_under(p, root) && parent_of(p).len() < p.len() {
        lemma_prune_keeps_root(parent_of(p), root);
        let rest = prune_order(parent_of(p), root);
        assert forall|i: int|
            0 <= i < prune_order(p, root).len() implies strictly_under(#[trigger] prune_order(p, root)[i], root) by {
            if i > 0 {
                assert(prune_order(p, root)[i] == rest[i - 1]);
            }
        }
    }
    if prune_order(p, root).contains(root) {
        let i = choose|i: int| 0 <= i < prune_order(p, root).len() && prune_order(p, root)[i] == root;
        assert(strictly_under(prune_order(p, root)[i], root));
    }
}

} // verus!
