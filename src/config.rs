//! The resolved submodule configuration, its overrides, and the entries that
//! setup keeps in `.gitmodules` and in the repository's local config.
use vstd::prelude::*;

use crate::cmd::opt_view;
use crate::text::same_text;

verus! {

/// A fully resolved configuration: the submodule's name, its working
/// directory (absolute, and relative to the work repository), its remote URL
/// and branch, the project tag, an optional shared mirror, the file it was
/// read from, and the work repository.
#[derive(Clone, Debug)]
pub struct Config {
    pub submodule_name: String,
    pub submodule_path: String,
    pub submodule_path_relative: String,
    pub submodule_url: String,
    pub submodule_branch: String,
    pub project_tag: String,
    pub shared_mirror_path: Option<String>,
    pub config_file: String,
    pub work_repo: String,
}

/// Values that replace those of the base configuration.
#[derive(Clone, Debug)]
pub struct Overrides {
    pub submodule_url: Option<String>,
    pub shared_mirror_path: Option<String>,
}

/// Every field but the overridable ones is kept.
pub open spec fn same_fixed_fields(a: Config, b: Config) -> bool {
    &&& a.submodule_name == b.submodule_name
    &&& a.submodule_path == b.submodule_path
    &&& a.submodule_path_relative == b.submodule_path_relative
    &&& a.submodule_branch == b.submodule_branch
    &&& a.project_tag == b.project_tag
    &&& a.config_file == b.config_file
    &&& a.work_repo == b.work_repo
}

/// The URL after overriding: the override's when it has one.
pub open spec fn url_after(c: Config, o: Overrides) -> Seq<char> {
    match o.submodule_url {
        Some(u) => u@,
        None => c.submodule_url@,
    }
}

/// The mirror after overriding: the override's when it has one.
pub open spec fn mirror_after(c: Config, o: Overrides) -> Option<Seq<char>> {
    match o.shared_mirror_path {
        Some(m) => Some(m@),
        None => opt_view(c.shared_mirror_path),
    }
}

/// Replaces the URL and the mirror by those the overrides give.
pub fn apply_overrides(config: &mut Config, overrides: &Overrides)
    ensures
        same_fixed_fields(*final(config), *old(config)),
        final(config).submodule_url@ == url_after(*old(config), *overrides),
        opt_view(final(config).shared_mirror_path) == mirror_after(*old(config), *overrides),
{
    match &overrides.submodule_url {
        Some(url) => {
            config.submodule_url = url.clone();
        },
        None => {},
    }
    match &overrides.shared_mirror_path {
        Some(path) => {
            config.shared_mirror_path = Some(path.clone());
        },
        None => {},
    }
}

/// Local files are read in order and the first value found for a key stays:
/// `found` fills only what `acc` lacks.
pub fn merge_local_override(acc: &mut Overrides, found: Overrides)
    ensures
        final(acc).submodule_url == (if old(acc).submodule_url is Some {
            old(acc).submodule_url
        } else {
            found.submodule_url
        }),
        final(acc).shared_mirror_path == (if old(acc).shared_mirror_path is Some {
            old(acc).shared_mirror_path
        } else {
            found.shared_mirror_path
        }),
{
    if acc.submodule_url.is_none() {
        acc.submodule_url = found.submodule_url;
    }
    if acc.shared_mirror_path.is_none() {
        acc.shared_mirror_path = found.shared_mirror_path;
    }
}

/// An environment value counts only when it is not empty.
pub open spec fn env_value(v: Option<String>) -> Option<Seq<char>> {
    match v {
        Some(s) => if s@.len() > 0 {
            Some(s@)
        } else {
            None
        },
        None => None,
    }
}

/// The overrides that the environment variables give; empty values are ignored.
pub fn env_overrides(url: Option<String>, mirror: Option<String>) -> (r: Overrides)
    ensures
        opt_view(r.submodule_url) == env_value(url),
        opt_view(r.shared_mirror_path) == env_value(mirror),
{
    let u = match url {
        Some(s) => if s.unicode_len() > 0 {
            Some(s)
        } else {
            None
        },
        None => None,
    };
    let m = match mirror {
        Some(s) => if s.unicode_len() > 0 {
            Some(s)
        } else {
            None
        },
        None => None,
    };
    Overrides { submodule_url: u, shared_mirror_path: m }
}

/// Local overrides are applied first and environment overrides second, so a
/// value from the environment wins over one from a local file, and either wins
/// over the base file. `mid` is the configuration after the local overrides.
pub proof fn lemma_environment_wins(base: Config, mid: Config, local: Overrides, env: Overrides)
    requires
        mid.submodule_url@ == url_after(base, local),
        opt_view(mid.shared_mirror_path) == mirror_after(base, local),
    ensures
        url_after(mid, env) == (match env.submodule_url {
            Some(e) => e@,
            None => match local.submodule_url {
                Some(l) => l@,
                None => base.submodule_url@,
            },
        }),
        mirror_after(mid, env) == (match env.shared_mirror_path {
            Some(e) => Some(e@),
            None => match local.shared_mirror_path {
                Some(l) => Some(l@),
                None => opt_view(base.shared_mirror_path),
            },
        }),
{
}

/// The values of one `[submodule "<name>"]` section as a file holds them.
#[derive(Clone, Debug)]
pub struct SectionValues {
    pub path: Option<String>,
    pub url: Option<String>,
    pub branch: Option<String>,
}

/// Setting `value` over `previous` changes the file: there was no value, or another one.
pub open spec fn value_changes(previous: Option<Seq<char>>, value: Seq<char>) -> bool {
    match previous {
        Some(p) => p != value,
        None => true,
    }
}

/// Whether setting `value` over `previous` changes the file.
pub fn value_changed(previous: &Option<String>, value: &str) -> (r: bool)
    ensures
        r == value_changes(opt_view(*previous), value@),
{
    match previous {
        Some(p) => !same_text(p.as_str(), value),
        None => true,
    }
}

/// The section of `.gitmodules` and of the local config that one submodule owns.
#[derive(Clone, Debug)]
pub struct SubmoduleConfig {
    pub name: String,
}

impl SubmoduleConfig {
    pub fn new(name: &str) -> (r: Self)
        ensures
            r.name@ == name@,
    {
        SubmoduleConfig { name: name.to_owned() }
    }

    /// Whether writing `path`, `url` and `branch` into the `.gitmodules`
    /// section changes it; the file is rewritten only then.
    pub fn ensure_gitmodules(&self, current: &SectionValues, path: &str, url: &str, branch: &str) -> (r:
        bool)
        ensures
            r == (value_changes(opt_view(current.path), path@) || value_changes(
                opt_view(current.url),
                url@,
            ) || value_changes(opt_view(current.branch), branch@)),
    {
        let a = value_changed(&current.path, path);
        let b = value_changed(&current.url, url);
        let c = value_changed(&current.branch, branch);
        a || b || c
    }

    /// Whether writing `url` and `branch` into the local config section
    /// changes it; the file is rewritten only then.
    pub fn ensure_local_config(&self, current: &SectionValues, url: &str, branch: &str) -> (r: bool)
        ensures
            r == (value_changes(opt_view(current.url), url@) || value_changes(
                opt_view(current.branch),
                branch@,
            )),
    {
        let b = value_changed(&current.url, url);
        let c = value_changed(&current.branch, branch);
        b || c
    }

    /// Whether removing the section from `.gitmodules` removes anything: the
    /// file exists and holds the section.
    pub fn remove_from_gitmodules(&self, file_exists: bool, section_present: bool) -> (r: bool)
        ensures
            r == (file_exists && section_present),
    {
        file_exists && section_present
    }

    /// Whether removing the section from the local config removes anything.
    pub fn remove_from_local_config(&self, file_exists: bool, section_present: bool) -> (r: bool)
        ensures
            r == (file_exists && section_present),
    {
        file_exists && section_present
    }
}

/// What `pathdiff::diff_paths` returns for two paths, as text.
pub uninterp spec fn diff_of(path: Seq<char>, base: Seq<char>) -> Option<Seq<char>>;

/// Relies on pathdiff's `diff_paths`: the path that leads from `base` to
/// `path`. It compares the two paths' components and reads no file system,
/// so the result depends on the two paths alone.
#[verifier::external_body]
pub(crate) fn relative_path(path: &str, base: &str) -> (r: Option<String>)
    ensures
        opt_view(r) == diff_of(path@, base@),
{
    pathdiff::diff_paths(path, base).map(|p| p.to_string_lossy().into_owned())
}

/// Why a configuration cannot be resolved.
#[derive(Clone, Debug, PartialEq, Eq)]
pub enum ConfigError {
    /// No file holds all the required keys.
    MissingKeys,
    /// The object with the required keys holds no string under one of them.
    MissingKey,
    /// The submodule path cannot be expressed relative to the work repository.
    UnrelatablePath,
}

/// The submodule's working directory relative to the work repository.
pub fn submodule_path_relative(submodule_path: &str, work_repo: &str) -> (r: Result<String, ConfigError>)
    ensures
        match r {
            Ok(v) => diff_of(submodule_path@, work_repo@) == Some(v@),
            Err(e) => diff_of(submodule_path@, work_repo@) is None && e == ConfigError::UnrelatablePath,
        },
{
    match relative_path(submodule_path, work_repo) {
        Some(v) => Ok(v),
        None => Err(ConfigError::UnrelatablePath),
    }
}

} // verus!
