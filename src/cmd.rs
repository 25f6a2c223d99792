//! Git commands as values: the options and arguments of one invocation, and
//! what a finished invocation's output means.
use vstd::prelude::*;

use crate::assoc::str_views;
use crate::text::{trim, trim_text};

verus! {

/// One git invocation: `--git-dir`, `--work-tree`, the directory it runs in,
/// and its arguments.
#[derive(Clone, Debug, Default)]
pub struct Git {
    pub git_dir: Option<String>,
    pub work_tree: Option<String>,
    pub cwd: Option<String>,
    pub args: Vec<String>,
}

/// What a finished invocation reported.
#[derive(Clone, Debug)]
pub struct CommandOutput {
    pub success: bool,
    pub stdout: String,
    pub stderr: String,
}

/// A git invocation that did not succeed: the arguments it ran with and what
/// it wrote to stderr, trimmed.
#[derive(Clone, Debug, PartialEq, Eq)]
pub struct GitFailure {
    pub command: String,
    pub stderr: String,
}

/// An optional string's characters.
pub open spec fn opt_view(o: Option<String>) -> Option<Seq<char>> {
    match o {
        Some(s) => Some(s@),
        None => None,
    }
}

/// The arguments joined by single spaces.
pub open spec fn joined(args: Seq<Seq<char>>) -> Seq<char>
    decreases args.len(),
{
    if args.len() == 0 {
        Seq::empty()
    } else if args.len() == 1 {
        args[0]
    } else {
        joined(args.drop_last()) + seq![' '] + args.last()
    }
}

/// The arguments that the git executable receives: the repository options
/// first, then the command's own arguments.
pub open spec fn full_args(g: Git) -> Seq<Seq<char>> {
    dir_opts(g.git_dir) + tree_opts(g.work_tree) + str_views(g.args@)
}

/// `--git-dir <dir>` when a git directory is set.
pub open spec fn dir_opts(d: Option<String>) -> Seq<Seq<char>> {
    match d {
        Some(d) => seq![seq!['-', '-', 'g', 'i', 't', '-', 'd', 'i', 'r'], d@],
        None => Seq::empty(),
    }
}

/// `--work-tree <dir>` when a work tree is set.
pub open spec fn tree_opts(w: Option<String>) -> Seq<Seq<char>> {
    match w {
        Some(w) => seq![seq!['-', '-', 'w', 'o', 'r', 'k', '-', 't', 'r', 'e', 'e'], w@],
        None => Seq::empty(),
    }
}

/// A command with no options and no arguments.
pub fn git() -> (r: Git)
    ensures
        r.git_dir is None,
        r.work_tree is None,
        r.cwd is None,
        r.args@.len() == 0,
{
    Git { git_dir: None, work_tree: None, cwd: None, args: Vec::new() }
}

impl Git {
    /// Sets the git directory (`--git-dir`).
    pub fn git_dir(self, path: &str) -> (r: Self)
        ensures
            opt_view(r.git_dir) == Some(path@),
            r.work_tree == self.work_tree,
            r.cwd == self.cwd,
            r.args == self.args,
    {
        Git { git_dir: Some(path.to_owned()), ..self }
    }

    /// Sets the work tree (`--work-tree`).
    pub fn work_tree(self, path: &str) -> (r: Self)
        ensures
            opt_view(r.work_tree) == Some(path@),
            r.git_dir == self.git_dir,
            r.cwd == self.cwd,
            r.args == self.args,
    {
        Git { work_tree: Some(path.to_owned()), ..self }
    }

    /// Sets the directory the command runs in.
    pub fn cwd(self, path: &str) -> (r: Self)
        ensures
            opt_view(r.cwd) == Some(path@),
            r.git_dir == self.git_dir,
            r.work_tree == self.work_tree,
            r.args == self.args,
    {
        Git { cwd: Some(path.to_owned()), ..self }
    }

    /// Appends one argument.
    pub fn arg(self, a: &str) -> (r: Self)
        ensures
            str_views(r.args@) == str_views(self.args@).push(a@),
            r.git_dir == self.git_dir,
            r.work_tree == self.work_tree,
            r.cwd == self.cwd,
    {
        let mut g = self;
        let ghost before = str_views(g.args@);
        g.args.push(a.to_owned());
        proof {
            assert(str_views(g.args@) =~= before.push(a@));
        }
        g
    }

    /// Appends several arguments, in order.
    pub fn args(self, items: &Vec<String>) -> (r: Self)
        ensures
            str_views(r.args@) == str_views(self.args@) + str_views(items@),
            r.git_dir == self.git_dir,
            r.work_tree == self.work_tree,
            r.cwd == self.cwd,
    {
        let mut g = self;
        let ghost start = str_views(g.args@);
        let mut i: usize = 0;
        while i < items.len()
            invariant
                i <= items@.len(),
                str_views(g.args@) == start + str_views(items@).take(i as int),
                g.git_dir == self.git_dir,
                g.work_tree == self.work_tree,
                g.cwd == self.cwd,
            decreases items@.len() - i,
        {
            g = g.arg(items[i].as_str());
            proof {
                assert(str_views(items@).take(i + 1) =~= str_views(items@).take(i as int).push(
                    items@[i as int]@,
                ));
            }
            i = i + 1;
        }
        proof {
            assert(str_views(items@).take(items@.len() as int) =~= str_views(items@));
        }
        g
    }

    /// The arguments that the git executable receives.
    pub fn command_line(&self) -> (r: Vec<String>)
        ensures
            str_views(r@) == full_args(*self),
    {
        let mut r: Vec<String> = Vec::new();
        match &self.git_dir {
            Some(d) => {
                r.push("--git-dir".to_owned());
                r.push(d.clone());
            },
            None => {},
        }
        match &self.work_tree {
            Some(w) => {
                r.push("--work-tree".to_owned());
                r.push(w.clone());
            },
            None => {},
        }
        let ghost pre = str_views(r@);
        let mut i: usize = 0;
        while i < self.args.len()
            invariant
                i <= self.args@.len(),
                str_views(r@) == pre + str_views(self.args@).take(i as int),
            decreases self.args@.len() - i,
        {
            r.push(self.args[i].clone());
            proof {
                assert(str_views(self.args@).take(i + 1) =~= str_views(self.args@).take(i as int).push(
                    self.args@[i as int]@,
                ));
                assert(str_views(r@) =~= (pre + str_views(self.args@).take(i as int)).push(self.args@[i as int]@));
            }
            i = i + 1;
        }
        proof {
            reveal_strlit("--git-dir");
            reveal_strlit("--work-tree");
            assert(str_views(self.args@).take(self.args@.len() as int) =~= str_views(self.args@));
            assert("--git-dir"@ =~= seq!['-', '-', 'g', 'i', 't', '-', 'd', 'i', 'r']);
            assert("--work-tree"@ =~= seq!['-', '-', 'w', 'o', 'r', 'k', '-', 't', 'r', 'e', 'e']);
            assert(pre =~= dir_opts(self.git_dir) + tree_opts(self.work_tree));
        }
        r
    }

    /// The command's own arguments joined by spaces, as error messages show it.
    pub fn description(&self) -> (r: String)
        ensures
            r@ == joined(str_views(self.args@)),
    {
        let mut r = String::new();
        let mut i: usize = 0;
        while i < self.args.len()
            invariant
                i <= self.args@.len(),
                r@ == joined(str_views(self.args@).take(i as int)),
            decreases self.args@.len() - i,
        {
            let ghost pv = str_views(self.args@).take(i + 1);
            proof {
                assert(pv.drop_last() =~= str_views(self.args@).take(i as int));
                assert(pv.last() == self.args@[i as int]@);
            }
            if i > 0 {
                r.append(" ");
                proof {
                    reveal_strlit(" ");
                }
            }
            r.append(self.args[i].as_str());
            proof {
                if i == 0 {
                    assert(pv.len() == 1);
                    assert(r@ =~= pv[0]);
                }
            }
            i = i + 1;
        }
        proof {
            assert(str_views(self.args@).take(self.args@.len() as int) =~= str_views(self.args@));
        }
        r
    }

    /// The failure that an unsuccessful invocation reports.
    fn failure(&self, out: &CommandOutput) -> (r: GitFailure)
        ensures
            r.command@ == joined(str_views(self.args@)),
            r.stderr@ == trim(out.stderr@),
    {
        GitFailure { command: self.description(), stderr: trim_text(out.stderr.as_str()) }
    }

    /// What a finished invocation means when it must succeed.
    pub fn run(&self, out: &CommandOutput) -> (r: Result<(), GitFailure>)
        ensures
            out.success ==> r is Ok,
            !out.success ==> (r matches Err(f) && f.command@ == joined(str_views(self.args@))
                && f.stderr@ == trim(out.stderr@)),
    {
        if out.success {
            Ok(())
        } else {
            Err(self.failure(out))
        }
    }

    /// The trimmed standard output of an invocation that must succeed.
    pub fn stdout(&self, out: &CommandOutput) -> (r: Result<String, GitFailure>)
        ensures
            out.success ==> (r matches Ok(s) && s@ == trim(out.stdout@)),
            !out.success ==> (r matches Err(f) && f.command@ == joined(str_views(self.args@))
                && f.stderr@ == trim(out.stderr@)),
    {
        if out.success {
            Ok(trim_text(out.stdout.as_str()))
        } else {
            Err(self.failure(out))
        }
    }

    /// Whether the invocation succeeded, for existence checks.
    pub fn ok(&self, out: &CommandOutput) -> (r: bool)
        ensures
            r == out.success,
    {
        out.success
    }
}

} // verus!
