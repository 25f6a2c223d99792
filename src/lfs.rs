//! Large-file storage: whether a checkout uses it, its invocations, and how
//! their failures are handled.
use vstd::prelude::*;

use crate::assoc::str_views;
use crate::cmd::{git, opt_view, Git};
use crate::text::{contains_text, has_substring};

verus! {

/// Installs the large-file hooks in the repository.
pub fn install(git_dir: &str, worktree: &str) -> (r: Git)
    ensures
        opt_view(r.git_dir) == Some(git_dir@),
        opt_view(r.work_tree) == Some(worktree@),
        r.cwd is None,
        str_views(r.args@) == seq!["lfs"@, "install"@, "--local"@],
{
    let g = git().git_dir(git_dir).work_tree(worktree);
    let g = g.arg("lfs");
    let g = g.arg("install");
    let g = g.arg("--local");
    proof {
        reveal_strlit("--local");
        reveal_strlit("install");
        reveal_strlit("lfs");
        assert(str_views(g.args@) =~= seq!["lfs"@, "install"@, "--local"@]);
    }
    g
}

/// Fetches the large-file objects of the checkout.
pub fn fetch(git_dir: &str, worktree: &str) -> (r: Git)
    ensures
        opt_view(r.git_dir) == Some(git_dir@),
        opt_view(r.work_tree) == Some(worktree@),
        r.cwd is None,
        str_views(r.args@) == seq!["lfs"@, "fetch"@],
{
    let g = git().git_dir(git_dir).work_tree(worktree);
    let g = g.arg("lfs");
    let g = g.arg("fetch");
    proof {
        reveal_strlit("fetch");
        reveal_strlit("lfs");
        assert(str_views(g.args@) =~= seq!["lfs"@, "fetch"@]);
    }
    g
}

/// Replaces large-file pointers in the working tree by their content.
pub fn checkout(git_dir: &str, worktree: &str) -> (r: Git)
    ensures
        opt_view(r.git_dir) == Some(git_dir@),
        opt_view(r.work_tree) == Some(worktree@),
        r.cwd is None,
        str_views(r.args@) == seq!["lfs"@, "checkout"@],
{
    let g = git().git_dir(git_dir).work_tree(worktree);
    let g = g.arg("lfs");
    let g = g.arg("checkout");
    proof {
        reveal_strlit("checkout");
        reveal_strlit("lfs");
        assert(str_views(g.args@) =~= seq!["lfs"@, "checkout"@]);
    }
    g
}

/// The filter setting that marks large-file storage in `.gitattributes`.
pub open spec fn lfs_marker() -> Seq<char> {
    seq!['f', 'i', 'l', 't', 'e', 'r', '=', 'l', 'f', 's']
}

/// Whether a checkout uses large-file storage, from the content of its
/// top-level `.gitattributes` (`None` when it cannot be read).
pub fn is_enabled(gitattributes: Option<&str>) -> (r: bool)
    ensures
        r == (gitattributes matches Some(c) && has_substring(c@, lfs_marker())),
{
    match gitattributes {
        Some(c) => {
            proof {
                reveal_strlit("filter=lfs");
                assert("filter=lfs"@ =~= lfs_marker());
            }
            contains_text(c, "filter=lfs")
        },
        None => false,
    }
}

/// Where the large-file steps stand.
#[derive(Clone, Copy, Debug, PartialEq, Eq)]
pub enum LfsStage {
    Install,
    Fetch,
    Checkout,
    Done,
}

/// The next stage after the invocation of `stage` finished, and whether its
/// failure is reported as a warning. A failed install ends the steps (large-file
/// storage may not be installed); a failed fetch or checkout is a warning and
/// never stops the setup, since the files already materialized stay valid.
pub fn lfs_next(stage: LfsStage, success: bool) -> (r: (LfsStage, bool))
    ensures
        r.1 == (!success && stage != LfsStage::Done),
        stage == LfsStage::Install ==> r.0 == (if success { LfsStage::Fetch } else { LfsStage::Done }),
        stage == LfsStage::Fetch ==> r.0 == LfsStage::Checkout,
        stage == LfsStage::Checkout ==> r.0 == LfsStage::Done,
        stage == LfsStage::Done ==> r.0 == LfsStage::Done,
{
    match stage {
        LfsStage::Install => if success {
            (LfsStage::Fetch, false)
        } else {
            (LfsStage::Done, true)
        },
        LfsStage::Fetch => (LfsStage::Checkout, !success),
        LfsStage::Checkout => (LfsStage::Done, !success),
        LfsStage::Done => (LfsStage::Done, false),
    }
}

} // verus!
