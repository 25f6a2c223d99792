//! Repository creation.
use vstd::prelude::*;

use crate::assoc::str_views;
use crate::cmd::{git, Git};

verus! {

/// Creates a bare repository at `path`, quietly.
pub fn init_bare(path: &str) -> (r: Git)
    ensures
        r.git_dir is None,
        r.work_tree is None,
        r.cwd is None,
        str_views(r.args@) == seq!["init"@, "--bare"@, "-q"@, path@],
{
    let g = git();
    let g = g.arg("init");
    let g = g.arg("--bare");
    let g = g.arg("-q");
    let g = g.arg(path);
    proof {
        reveal_strlit("--bare");
        reveal_strlit("-q");
        reveal_strlit("init");
        assert(str_views(g.args@) =~= seq!["init"@, "--bare"@, "-q"@, path@]);
    }
    g
}

} // verus!
