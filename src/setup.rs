//! The decisions of submodule setup that are not a single git invocation:
//! where patterns are generated from, when that fails, and the commit that
//! the gitlink records.
use vstd::prelude::*;

use crate::assoc::{str_set, str_views};
use crate::collect::{collect_sparse_patterns, sort_unique, sorted_strs, sparse_paths};
use crate::config::{diff_of, relative_path, value_changes, Config};
use crate::scan::RepoScan;
use crate::submodule::{gitfile_content, gitlink_sha_from_stage, stage_sha};

verus! {

/// Why setup stopped.
#[derive(Clone, Debug, PartialEq, Eq)]
pub enum SetupError {
    /// The configured mirror holds no repository.
    MissingMirrorRepository,
    /// The submodule's working directory holds no repository and no mirror is configured.
    MissingRepository,
    /// No file carries the project tag.
    NoPatterns,
    /// The index has no gitlink at the submodule path.
    NoGitlink,
    /// The modules directory cannot be expressed relative to the working directory.
    UnrelatableModulesPath,
    /// The user declined.
    Aborted,
}

impl SetupError {
    /// A message for the user, with what to do about it.
    pub fn message(&self) -> (r: &'static str)
        ensures
            r@.len() > 0,
    {
        let r = match self {
            SetupError::MissingMirrorRepository =>
                "no git repository found at the mirror path; ensure SHARED_MIRROR_PATH points to a valid git repository",
            SetupError::MissingRepository =>
                "no git repository found at the submodule path; to generate sparse patterns the repository's .gitattributes files are needed: set SHARED_MIRROR_PATH in the config or the environment to a local clone, or clone the repository first and run setup again",
            SetupError::NoPatterns => "no patterns found for the project tag",
            SetupError::NoGitlink => "no gitlink found in index",
            SetupError::UnrelatableModulesPath => "failed to compute relative path to modules directory",
            SetupError::Aborted => "aborted by user",
        };
        proof {
            reveal_strlit("no git repository found at the mirror path; ensure SHARED_MIRROR_PATH points to a valid git repository");
            reveal_strlit("no git repository found at the submodule path; to generate sparse patterns the repository's .gitattributes files are needed: set SHARED_MIRROR_PATH in the config or the environment to a local clone, or clone the repository first and run setup again");
            reveal_strlit("no patterns found for the project tag");
            reveal_strlit("no gitlink found in index");
            reveal_strlit("failed to compute relative path to modules directory");
            reveal_strlit("aborted by user");
        }
        r
    }
}

/// The repository that patterns are generated from: the mirror when one is
/// configured, else the submodule's working directory.
pub fn pattern_source(config: &Config) -> (r: String)
    ensures
        r@ == (match config.shared_mirror_path {
            Some(m) => m@,
            None => config.submodule_path@,
        }),
{
    match &config.shared_mirror_path {
        Some(m) => m.clone(),
        None => config.submodule_path.clone(),
    }
}

/// Whether pattern generation may go on: the source holds a repository.
pub fn check_pattern_source(config: &Config, has_repository: bool) -> (r: Result<(), SetupError>)
    ensures
        has_repository ==> r is Ok,
        !has_repository && config.shared_mirror_path is Some ==> r == Err::<(), SetupError>(
            SetupError::MissingMirrorRepository,
        ),
        !has_repository && config.shared_mirror_path is None ==> r == Err::<(), SetupError>(
            SetupError::MissingRepository,
        ),
{
    if has_repository {
        Ok(())
    } else if config.shared_mirror_path.is_some() {
        Err(SetupError::MissingMirrorRepository)
    } else {
        Err(SetupError::MissingRepository)
    }
}

/// The sparse patterns of the source repository for `tag`, in ascending order
/// and each once; an error when no entry carries the tag.
pub fn generate_sparse_patterns(repo: &RepoScan, tag: &str) -> (r: Result<Vec<String>, SetupError>)
    ensures
        (r is Err) == (sparse_paths(repo.entries@, tag@, repo.entries@.len() as int).len() == 0),
        r is Err ==> r == Err::<Vec<String>, SetupError>(SetupError::NoPatterns),
        r matches Ok(v) ==> {
            &&& str_set(v@) == sparse_paths(repo.entries@, tag@, repo.entries@.len() as int).to_set()
            &&& str_views(v@).no_duplicates()
            &&& sorted_strs(str_views(v@))
        },
{
    let mut v = collect_sparse_patterns(repo, tag);
    if v.len() == 0 {
        return Err(SetupError::NoPatterns);
    }
    sort_unique(&mut v);
    Ok(v)
}

/// The commit that the gitlink records, from `git ls-files --stage` output.
pub fn gitlink_commit(stage_output: &str) -> (r: Result<String, SetupError>)
    ensures
        match r {
            Ok(v) => stage_sha(stage_output@) == Some(v@),
            Err(e) => stage_sha(stage_output@) is None && e == SetupError::NoGitlink,
        },
{
    match gitlink_sha_from_stage(stage_output) {
        Some(v) => Ok(v),
        None => Err(SetupError::NoGitlink),
    }
}

/// The content of the submodule's `.git` file: `gitdir: ` and the modules
/// directory relative to the working directory.
pub fn gitfile_for(modules_path: &str, worktree_path: &str) -> (r: Result<String, SetupError>)
    ensures
        match r {
            Ok(v) => diff_of(modules_path@, worktree_path@) is Some && v@ == seq![
                'g',
                'i',
                't',
                'd',
                'i',
                'r',
                ':',
                ' ',
            ] + diff_of(modules_path@, worktree_path@).unwrap() + seq!['\n'],
            Err(e) => diff_of(modules_path@, worktree_path@) is None && e
                == SetupError::UnrelatableModulesPath,
        },
{
    match relative_path(modules_path, worktree_path) {
        Some(rel) => Ok(gitfile_content(rel.as_str())),
        None => Err(SetupError::UnrelatableModulesPath),
    }
}

/// The checkpoints of setup, in the order they run.
#[derive(Clone, Copy, Debug, PartialEq, Eq)]
pub enum SetupStep {
    /// Upsert the submodule's entries in `.gitmodules` and the local config.
    SyncMetadata,
    /// Look for a gitlink at the submodule path in the index.
    CheckGitlink,
    /// Resolve the remote tip in a disposable repository and insert the gitlink.
    AddGitlink,
    /// Register the submodule's metadata.
    InitSubmodule,
    /// Create the working directory and the modules repository, and share the mirror's objects.
    PrepareModules,
    /// Write the `.git` file and point the modules repository at the working directory.
    LinkWorktree,
    /// Add the `origin` remote when it is missing.
    EnsureRemote,
    /// Fetch the pinned commit unless present, then move `HEAD` and the branch to it.
    FetchCommit,
    /// Turn sparse checkout on and write the patterns.
    ConfigureSparse,
    /// Read the tree and write the selected files.
    Materialize,
    /// Install, fetch and check out large-file objects; failures only warn.
    LargeFiles,
    Done,
}

/// The checkpoint after `step`. The gitlink is created only when the index has
/// none, and the large-file steps run only when the checkout uses large-file
/// storage; every other checkpoint runs once, in order.
pub open spec fn step_after(step: SetupStep, gitlink_exists: bool, uses_lfs: bool) -> SetupStep {
    match step {
        SetupStep::SyncMetadata => SetupStep::CheckGitlink,
        SetupStep::CheckGitlink => if gitlink_exists {
            SetupStep::InitSubmodule
        } else {
            SetupStep::AddGitlink
        },
        SetupStep::AddGitlink => SetupStep::InitSubmodule,
        SetupStep::InitSubmodule => SetupStep::PrepareModules,
        SetupStep::PrepareModules => SetupStep::LinkWorktree,
        SetupStep::LinkWorktree => SetupStep::EnsureRemote,
        SetupStep::EnsureRemote => SetupStep::FetchCommit,
        SetupStep::FetchCommit => SetupStep::ConfigureSparse,
        SetupStep::ConfigureSparse => SetupStep::Materialize,
        SetupStep::Materialize => if uses_lfs {
            SetupStep::LargeFiles
        } else {
            SetupStep::Done
        },
        SetupStep::LargeFiles => SetupStep::Done,
        SetupStep::Done => SetupStep::Done,
    }
}

/// The checkpoint after `step` (see [`step_after`]).
pub fn next_step(step: SetupStep, gitlink_exists: bool, uses_lfs: bool) -> (r: SetupStep)
    ensures
        r == step_after(step, gitlink_exists, uses_lfs),
{
    match step {
        SetupStep::SyncMetadata => SetupStep::CheckGitlink,
        SetupStep::CheckGitlink => if gitlink_exists {
            SetupStep::InitSubmodule
        } else {
            SetupStep::AddGitlink
        },
        SetupStep::AddGitlink => SetupStep::InitSubmodule,
        SetupStep::InitSubmodule => SetupStep::PrepareModules,
        SetupStep::PrepareModules => SetupStep::LinkWorktree,
        SetupStep::LinkWorktree => SetupStep::EnsureRemote,
        SetupStep::EnsureRemote => SetupStep::FetchCommit,
        SetupStep::FetchCommit => SetupStep::ConfigureSparse,
        SetupStep::ConfigureSparse => SetupStep::Materialize,
        SetupStep::Materialize => if uses_lfs {
            SetupStep::LargeFiles
        } else {
            SetupStep::Done
        },
        SetupStep::LargeFiles => SetupStep::Done,
        SetupStep::Done => SetupStep::Done,
    }
}

/// The checkpoints a run goes through from `step`, for at most `n` more steps.
pub open spec fn run_from(step: SetupStep, gitlink_exists: bool, uses_lfs: bool, n: nat) -> Seq<SetupStep>
    decreases n,
{
    if n == 0 || step == SetupStep::Done {
        seq![step]
    } else {
        seq![step] + run_from(step_after(step, gitlink_exists, uses_lfs), gitlink_exists, uses_lfs, (n - 1) as nat)
    }
}

/// The position of a checkpoint in the pipeline.
pub open spec fn rank(step: SetupStep) -> nat {
    match step {
        SetupStep::SyncMetadata => 0,
        SetupStep::CheckGitlink => 1,
        SetupStep::AddGitlink => 2,
        SetupStep::InitSubmodule => 3,
        SetupStep::PrepareModules => 4,
        SetupStep::LinkWorktree => 5,
        SetupStep::EnsureRemote => 6,
        SetupStep::FetchCommit => 7,
        SetupStep::ConfigureSparse => 8,
        SetupStep::Materialize => 9,
        SetupStep::LargeFiles => 10,
        SetupStep::Done => 11,
    }
}

proof fn lemma_run_shape(step: SetupStep, uses_lfs: bool, n: nat)
    requires
        step != SetupStep::AddGitlink,
        n + rank(step) >= 11,
    ensures
        !run_from(step, true, uses_lfs, n).contains(SetupStep::AddGitlink),
        run_from(step, true, uses_lfs, n).last() == SetupStep::Done,
    decreases n,
{
    let r = run_from(step, true, uses_lfs, n);
    if !(n == 0 || step == SetupStep::Done) {
        let next = step_after(step, true, uses_lfs);
        assert(rank(next) > rank(step));
        lemma_run_shape(next, uses_lfs, (n - 1) as nat);
        let rest = run_from(next, true, uses_lfs, (n - 1) as nat);
        assert(r == seq![step] + rest);
        if r.contains(SetupStep::AddGitlink) {
            let k = choose|k: int| 0 <= k < r.len() && r[k] == SetupStep::AddGitlink;
            assert(k > 0);
            assert(rest[k - 1] == SetupStep::AddGitlink);
        }
    } else {
        assert(r == seq![step]);
        if r.contains(SetupStep::AddGitlink) {
            let k = choose|k: int| 0 <= k < r.len() && r[k] == SetupStep::AddGitlink;
            assert(r[k] == step);
        }
    }
}

/// A second run over a submodule that the first run set up changes nothing:
/// its section values are those written, so no config file is marked changed;
/// the gitlink exists, so the run never resolves the remote tip nor touches the
/// gitlink; and it reaches the end.
pub proof fn lemma_second_setup_pass(
    path: Seq<char>,
    url: Seq<char>,
    branch: Seq<char>,
    uses_lfs: bool,
)
    ensures
        !value_changes(Some(path), path),
        !value_changes(Some(url), url),
        !value_changes(Some(branch), branch),
        !run_from(SetupStep::SyncMetadata, true, uses_lfs, 11).contains(SetupStep::AddGitlink),
        run_from(SetupStep::SyncMetadata, true, uses_lfs, 11).last() == SetupStep::Done,
{
    lemma_run_shape(SetupStep::SyncMetadata, uses_lfs, 11);
}

} // verus!
