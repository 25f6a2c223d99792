//! Sparse checkout: turning it on, the pattern file, and materializing the files.
use vstd::prelude::*;

use crate::assoc::str_views;
use crate::cmd::{git, opt_view, Git};
use crate::submodule::join_sep;

verus! {

/// Turns sparse checkout on.
pub fn enable(git_dir: &str) -> (r: Git)
    ensures
        opt_view(r.git_dir) == Some(git_dir@),
        r.work_tree is None,
        r.cwd is None,
        str_views(r.args@) == seq!["config"@, "core.sparseCheckout"@, "true"@],
{
    let g = git().git_dir(git_dir);
    let g = g.arg("config");
    let g = g.arg("core.sparseCheckout");
    let g = g.arg("true");
    proof {
        reveal_strlit("config");
        reveal_strlit("core.sparseCheckout");
        reveal_strlit("true");
        assert(str_views(g.args@) =~= seq!["config"@, "core.sparseCheckout"@, "true"@]);
    }
    g
}

/// Reads `HEAD` into the index, applying the sparse patterns to the working tree.
pub fn read_tree(git_dir: &str, worktree: &str) -> (r: Git)
    ensures
        opt_view(r.git_dir) == Some(git_dir@),
        opt_view(r.work_tree) == Some(worktree@),
        r.cwd is None,
        str_views(r.args@) == seq!["read-tree"@, "-mu"@, "HEAD"@],
{
    let g = git().git_dir(git_dir).work_tree(worktree);
    let g = g.arg("read-tree");
    let g = g.arg("-mu");
    let g = g.arg("HEAD");
    proof {
        reveal_strlit("-mu");
        reveal_strlit("HEAD");
        reveal_strlit("read-tree");
        assert(str_views(g.args@) =~= seq!["read-tree"@, "-mu"@, "HEAD"@]);
    }
    g
}

/// Writes every file of the index into the working tree.
pub fn checkout_index(git_dir: &str, worktree: &str) -> (r: Git)
    ensures
        opt_view(r.git_dir) == Some(git_dir@),
        opt_view(r.work_tree) == Some(worktree@),
        r.cwd is None,
        str_views(r.args@) == seq!["checkout-index"@, "--all"@, "--force"@],
{
    let g = git().git_dir(git_dir).work_tree(worktree);
    let g = g.arg("checkout-index");
    let g = g.arg("--all");
    let g = g.arg("--force");
    proof {
        reveal_strlit("--all");
        reveal_strlit("--force");
        reveal_strlit("checkout-index");
        assert(str_views(g.args@) =~= seq!["checkout-index"@, "--all"@, "--force"@]);
    }
    g
}

/// The sparse-checkout file: one pattern per line, each line ended by a newline.
pub open spec fn sparse_file(patterns: Seq<Seq<char>>) -> Seq<char> {
    join_sep(patterns, seq!['\n']) + seq!['\n']
}

/// The content of the sparse-checkout file for `patterns`.
pub fn sparse_file_content(patterns: &Vec<String>) -> (r: String)
    ensures
        r@ == sparse_file(str_views(patterns@)),
{
    let ghost pv = str_views(patterns@);
    let mut r = String::new();
    let mut i: usize = 0;
    proof {
        reveal_strlit("\n");
        assert("\n"@ =~= seq!['\n']);
    }
    while i < patterns.len()
        invariant
            pv == str_views(patterns@),
            "\n"@ == seq!['\n'],
            i <= patterns@.len(),
            r@ == join_sep(pv.take(i as int), seq!['\n']),
        decreases patterns@.len() - i,
    {
        proof {
            assert(pv.take(i + 1).drop_last() =~= pv.take(i as int));
            assert(pv.take(i + 1).last() == patterns@[i as int]@);
        }
        if i > 0 {
            r.append("\n");
        }
        r.append(patterns[i].as_str());
        proof {
            if i == 0 {
                assert(r@ =~= pv.take(1)[0]);
            }
        }
        i = i + 1;
    }
    r.append("\n");
    proof {
        assert(pv.take(patterns@.len() as int) =~= pv);
    }
    r
}

/// Configures sparse checkout: the invocation that turns it on, and the
/// content of the pattern file.
pub fn configure(git_dir: &str, patterns: &Vec<String>) -> (r: (Git, String))
    ensures
        opt_view(r.0.git_dir) == Some(git_dir@),
        str_views(r.0.args@) == seq!["config"@, "core.sparseCheckout"@, "true"@],
        r.1@ == sparse_file(str_views(patterns@)),
{
    (enable(git_dir), sparse_file_content(patterns))
}

/// Materializes the sparse files: read the tree into the index, then write
/// every file of the index into the working tree.
pub fn checkout(git_dir: &str, worktree: &str) -> (r: (Git, Git))
    ensures
        opt_view(r.0.git_dir) == Some(git_dir@),
        opt_view(r.0.work_tree) == Some(worktree@),
        str_views(r.0.args@) == seq!["read-tree"@, "-mu"@, "HEAD"@],
        opt_view(r.1.git_dir) == Some(git_dir@),
        opt_view(r.1.work_tree) == Some(worktree@),
        str_views(r.1.args@) == seq!["checkout-index"@, "--all"@, "--force"@],
{
    (read_tree(git_dir, worktree), checkout_index(git_dir, worktree))
}

} // verus!
