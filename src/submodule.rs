//! Submodule metadata: the `worktree` key of a module's config, the paths
//! found under the modules directory, the gitlink recorded in the index, and
//! the alternates file.
use vstd::prelude::*;

use crate::assoc::str_views;
use crate::cmd::{git, opt_view, Git};
use crate::scan::{EntryKind, RepoScan};
use crate::text::{
    occurs_at, same_text, slice_chars, split_on, split_text, split_words, starts_with_text,
    suffix_from, trim, trim_start, trim_start_text, trim_text, words, Separator, decimal,
    decimal_text,
};

verus! {

/// The parts joined by `sep`.
pub open spec fn join_sep(parts: Seq<Seq<char>>, sep: Seq<char>) -> Seq<char>
    decreases parts.len(),
{
    if parts.len() == 0 {
        Seq::empty()
    } else if parts.len() == 1 {
        parts[0]
    } else {
        join_sep(parts.drop_last(), sep) + sep + parts.last()
    }
}

/// The path components joined with forward slashes.
pub fn path_to_unix_string(components: &Vec<String>) -> (r: String)
    ensures
        r@ == join_sep(components@.map_values(|c: String| c@), seq!['/']),
{
    let ghost cv = components@.map_values(|c: String| c@);
    let mut r = String::new();
    let mut i: usize = 0;
    while i < components.len()
        invariant
            cv == components@.map_values(|c: String| c@),
            i <= components@.len(),
            r@ == join_sep(cv.take(i as int), seq!['/']),
        decreases components@.len() - i,
    {
        proof {
            assert(cv.take(i + 1).drop_last() =~= cv.take(i as int));
            assert(cv.take(i + 1).last() == components@[i as int]@);
        }
        if i > 0 {
            r.append("/");
            proof {
                reveal_strlit("/");
            }
        }
        r.append(components[i].as_str());
        proof {
            if i == 0 {
                assert(r@ =~= cv.take(1)[0]);
            }
        }
        i = i + 1;
    }
    proof {
        assert(cv.take(components@.len() as int) =~= cv);
    }
    r
}

/// The key of the line that names a module's working tree.
pub open spec fn worktree_key() -> Seq<char> {
    seq!['w', 'o', 'r', 'k', 't', 'r', 'e', 'e']
}

/// The value of a `worktree = <path>` line: the trimmed line starts with
/// `worktree`, then optional whitespace and `=`; the value is the rest,
/// trimmed, and must not be empty.
pub open spec fn worktree_of_line(line: Seq<char>) -> Option<Seq<char>> {
    let l = trim(line);
    if l.len() >= 8 && l.subrange(0, 8) == worktree_key() {
        let rest = trim_start(l.subrange(8, l.len() as int));
        if rest.len() >= 1 && rest[0] == '=' {
            let v = trim(trim_start(rest.subrange(1, rest.len() as int)));
            if v.len() > 0 {
                Some(v)
            } else {
                None
            }
        } else {
            None
        }
    } else {
        None
    }
}

/// The value of the first line that has one.
pub open spec fn first_worktree(lines: Seq<Seq<char>>) -> Option<Seq<char>>
    decreases lines.len(),
{
    if lines.len() == 0 {
        None
    } else {
        match worktree_of_line(lines[0]) {
            Some(v) => Some(v),
            None => first_worktree(lines.drop_first()),
        }
    }
}

/// The working-tree path that a module's config text declares.
pub open spec fn config_worktree(text: Seq<char>) -> Option<Seq<char>> {
    first_worktree(split_on(text, Separator::Char('\n')))
}

proof fn lemma_first_worktree(lines: Seq<Seq<char>>, k: int)
    requires
        0 <= k <= lines.len(),
        forall|j: int| 0 <= j < k ==> #[trigger] worktree_of_line(lines[j]) is None,
    ensures
        k < lines.len() && worktree_of_line(lines[k]) is Some ==> first_worktree(lines)
            == worktree_of_line(lines[k]),
        k == lines.len() ==> first_worktree(lines) is None,
    decreases k,
{
    if k > 0 {
        let d = lines.drop_first();
        assert(worktree_of_line(lines[0]) is None);
        assert forall|j: int| 0 <= j < k - 1 implies #[trigger] worktree_of_line(d[j]) is None by {
            assert(d[j] == lines[j + 1]);
        }
        lemma_first_worktree(d, k - 1);
        if k < lines.len() {
            assert(d[k - 1] == lines[k]);
        }
    }
}

/// The value of one `worktree = <path>` line, if it is one.
fn worktree_in_line(line: &str) -> (r: Option<String>)
    ensures
        match r {
            Some(v) => worktree_of_line(line@) == Some(v@),
            None => worktree_of_line(line@) is None,
        },
{
    let l = trim_text(line);
    proof {
        reveal_strlit("worktree");
        assert("worktree"@ =~= worktree_key());
    }
    if !starts_with_text(l.as_str(), "worktree") {
        return None;
    }
    let rest = trim_start_text(suffix_from(l.as_str(), 8).as_str());
    proof {
        reveal_strlit("=");
    }
    if !starts_with_text(rest.as_str(), "=") {
        proof {
            if rest@.len() >= 1 {
                assert(rest@.subrange(0, 1) =~= seq![rest@[0]]);
                assert("="@ =~= seq!['=']);
            }
        }
        return None;
    }
    proof {
        assert("="@ =~= seq!['=']);
        assert("="@.len() == 1);
        assert(rest@.subrange(0, 1) == "="@);
        assert(rest@.subrange(0, 1)[0] == rest@[0]);
    }
    let after = trim_start_text(suffix_from(rest.as_str(), 1).as_str());
    let v = trim_text(after.as_str());
    proof {
        let lt = trim(line@);
        assert(l@ == lt);
        assert(lt.len() >= 8);
        assert(lt.subrange(0, 8) == worktree_key());
        assert(rest@ == trim_start(lt.subrange(8, lt.len() as int)));
        assert(rest@[0] == '=');
        assert(v@ == trim(trim_start(rest@.subrange(1, rest@.len() as int))));
    }
    if v.unicode_len() == 0 {
        None
    } else {
        Some(v)
    }
}

/// The working-tree path that a module's config text declares: the value of
/// the first `worktree = <path>` line.
pub fn worktree_value(config: &str) -> (r: Option<String>)
    ensures
        match r {
            Some(v) => config_worktree(config@) == Some(v@),
            None => config_worktree(config@) is None,
        },
{
    let lines = split_text(config, Separator::Char('\n'));
    let ghost lv = lines@.map_values(|x: String| x@);
    let mut k: usize = 0;
    while k < lines.len()
        invariant
            lv == lines@.map_values(|x: String| x@),
            lv == split_on(config@, Separator::Char('\n')),
            k <= lines@.len(),
            forall|j: int| 0 <= j < k ==> #[trigger] worktree_of_line(lv[j]) is None,
        decreases lines@.len() - k,
    {
        let found = worktree_in_line(lines[k].as_str());
        proof {
            assert(lv[k as int] == lines@[k as int]@);
        }
        match found {
            Some(v) => {
                proof {
                    lemma_first_worktree(lv, k as int);
                }
                return Some(v);
            },
            None => {},
        }
        k = k + 1;
    }
    proof {
        lemma_first_worktree(lv, k as int);
    }
    None
}

/// `s` with every occurrence of `pat`, left to right and without overlap,
/// replaced by `rep`.
pub open spec fn replace_all(s: Seq<char>, pat: Seq<char>, rep: Seq<char>) -> Seq<char>
    decreases s.len(),
{
    if pat.len() == 0 || s.len() == 0 {
        s
    } else if s.len() >= pat.len() && s.subrange(0, pat.len() as int) == pat {
        rep + replace_all(s.subrange(pat.len() as int, s.len() as int), pat, rep)
    } else {
        seq![s[0]] + replace_all(s.drop_first(), pat, rep)
    }
}

/// `s` with every occurrence of `pat` replaced by `rep`.
pub fn replace_text(s: &str, pat: &str, rep: &str) -> (r: String)
    requires
        pat@.len() > 0,
    ensures
        r@ == replace_all(s@, pat@, rep@),
{
    let n = s.unicode_len();
    let m = pat.unicode_len();
    let mut out = String::new();
    let mut i: usize = 0;
    proof {
        assert(s@.subrange(0, n as int) =~= s@);
    }
    while i < n
        invariant
            n == s@.len(),
            m == pat@.len(),
            m > 0,
            i <= n,
            replace_all(s@, pat@, rep@) == out@ + replace_all(s@.subrange(i as int, n as int), pat@, rep@),
        decreases n - i,
    {
        let ghost t = s@.subrange(i as int, n as int);
        if m <= n - i && occurs_at(s, pat, i) {
            proof {
                assert(t.subrange(0, m as int) =~= s@.subrange(i as int, i + m));
                assert(t.subrange(m as int, t.len() as int) =~= s@.subrange(i + m, n as int));
            }
            out.append(rep);
            proof {
                assert(out@ + replace_all(s@.subrange(i + m, n as int), pat@, rep@) =~= (out@.subrange(0, out@.len() - rep@.len()) + rep@) + replace_all(s@.subrange(i + m, n as int), pat@, rep@));
            }
            i = i + m;
        } else {
            proof {
                if m <= n - i {
                    assert(t.subrange(0, m as int) =~= s@.subrange(i as int, i + m));
                }
                assert(t.drop_first() =~= s@.subrange(i + 1, n as int));
            }
            let c = slice_chars(s, i, i + 1);
            proof {
                assert(c@ =~= seq![t[0]]);
            }
            out.append(c.as_str());
            i = i + 1;
        }
    }
    proof {
        assert(s@.subrange(n as int, n as int) =~= Seq::<char>::empty());
        assert(out@ + Seq::<char>::empty() =~= out@);
    }
    out
}

/// The duplicated segment that nested module directories carry.
pub open spec fn nested_segment() -> Seq<char> {
    seq!['/', 'm', 'o', 'd', 'u', 'l', 'e', 's', '/']
}

/// Whether a module found at `module_dir` (relative to the modules directory)
/// with working tree `worktree` (relative to the repository's working tree) is
/// kept: both are non-empty, and the module directory is not the working tree
/// with a `modules` segment doubled in, which marks a module of a nested
/// submodule, visited from inside that submodule.
pub open spec fn discovered_kept(module_dir: Seq<char>, worktree: Seq<char>) -> bool {
    module_dir.len() > 0 && worktree.len() > 0 && (module_dir == worktree || replace_all(
        module_dir,
        nested_segment(),
        seq!['/'],
    ) != worktree)
}

/// Whether a module found under the modules directory is kept (see [`discovered_kept`]).
pub fn keep_discovered(module_dir: &str, worktree: &str) -> (r: bool)
    ensures
        r == discovered_kept(module_dir@, worktree@),
{
    if module_dir.unicode_len() == 0 || worktree.unicode_len() == 0 {
        return false;
    }
    if same_text(module_dir, worktree) {
        return true;
    }
    proof {
        reveal_strlit("/modules/");
        reveal_strlit("/");
        assert("/modules/"@ =~= nested_segment());
        assert("/"@ =~= seq!['/']);
    }
    let normalized = replace_text(module_dir, "/modules/", "/");
    !same_text(normalized.as_str(), worktree)
}

/// The commit of the gitlink in `git ls-files --stage` output: the second
/// word of the first line.
pub open spec fn stage_sha(output: Seq<char>) -> Option<Seq<char>> {
    let first = split_on(output, Separator::Char('\n'))[0];
    if words(first).len() >= 2 {
        Some(words(first)[1])
    } else {
        None
    }
}

/// The commit of the gitlink in `git ls-files --stage` output, if there is one.
pub fn gitlink_sha_from_stage(output: &str) -> (r: Option<String>)
    ensures
        match r {
            Some(v) => stage_sha(output@) == Some(v@),
            None => stage_sha(output@) is None,
        },
{
    let lines = split_text(output, Separator::Char('\n'));
    proof {
        crate::text::lemma_split_on_nonempty(output@, Separator::Char('\n'));
    }
    let w = split_words(lines[0].as_str());
    if w.len() >= 2 {
        Some(w[1].clone())
    } else {
        None
    }
}

/// A line's text without the carriage return of a CRLF ending.
pub open spec fn strip_cr(p: Seq<char>) -> Seq<char> {
    if p.len() > 0 && p.last() == '\r' {
        p.drop_last()
    } else {
        p
    }
}

/// `e` is one of the lines of `s`, as `str::lines` splits them: a line ends at
/// `\n` (and drops the `\r` before it); a last line without `\n` counts when
/// it is not empty.
pub open spec fn has_line(s: Seq<char>, e: Seq<char>) -> bool {
    let ps = split_on(s, Separator::Char('\n'));
    (exists|j: int| 0 <= j < ps.len() - 1 && strip_cr(#[trigger] ps[j]) == e) || (ps.last().len()
        > 0 && ps.last() == e)
}

/// The new alternates file content that lists `entry`, or `None` when it is
/// listed already: the entry and a newline are appended to the current content.
pub open spec fn alternates_after(current: Seq<char>, entry: Seq<char>) -> Option<Seq<char>> {
    if has_line(current, entry) {
        None
    } else {
        Some(current + entry + seq!['\n'])
    }
}

/// The alternates file content that lists `entry`, unless it is listed already.
pub fn alternates_update(current: &str, entry: &str) -> (r: Option<String>)
    ensures
        match r {
            Some(v) => alternates_after(current@, entry@) == Some(v@),
            None => alternates_after(current@, entry@) is None,
        },
{
    let ps = split_text(current, Separator::Char('\n'));
    let ghost pv = ps@.map_values(|x: String| x@);
    proof {
        crate::text::lemma_split_on_nonempty(current@, Separator::Char('\n'));
    }
    let last = ps.len() - 1;
    let mut j: usize = 0;
    while j < last
        invariant
            pv == ps@.map_values(|x: String| x@),
            pv == split_on(current@, Separator::Char('\n')),
            last == ps@.len() - 1,
            j <= last,
            forall|q: int| 0 <= q < j ==> strip_cr(#[trigger] pv[q]) != entry@,
        decreases last - j,
    {
        let p = &ps[j];
        let n = p.unicode_len();
        let line = if n > 0 && p.get_char(n - 1) == '\r' {
            slice_chars(p.as_str(), 0, n - 1)
        } else {
            p.clone()
        };
        proof {
            assert(pv[j as int] == p@);
            if n > 0 {
                assert(p@.subrange(0, n - 1) =~= p@.drop_last());
            }
        }
        if same_text(line.as_str(), entry) {
            return None;
        }
        j = j + 1;
    }
    proof {
        assert(pv[last as int] == ps@[last as int]@);
    }
    if ps[last].unicode_len() > 0 && same_text(ps[last].as_str(), entry) {
        return None;
    }
    let mut v = current.to_owned();
    v.append(entry);
    v.append("\n");
    proof {
        reveal_strlit("\n");
        assert("\n"@ =~= seq!['\n']);
    }
    Some(v)
}

/// The `.git` file of a submodule working tree: it points at the modules directory.
pub fn gitfile_content(relative_modules: &str) -> (r: String)
    ensures
        r@ == seq!['g', 'i', 't', 'd', 'i', 'r', ':', ' '] + relative_modules@ + seq!['\n'],
{
    let mut v = "gitdir: ".to_owned();
    v.append(relative_modules);
    v.append("\n");
    proof {
        reveal_strlit("gitdir: ");
        reveal_strlit("\n");
        assert("gitdir: "@ =~= seq!['g', 'i', 't', 'd', 'i', 'r', ':', ' ']);
        assert("\n"@ =~= seq!['\n']);
    }
    v
}

/// The index of repository `repo` holds a gitlink at `path`.
pub open spec fn has_gitlink(repo: RepoScan, path: Seq<char>) -> bool {
    exists|k: int|
        0 <= k < repo.entries@.len() && (#[trigger] repo.entries@[k]).path@ == path
            && repo.entries@[k].kind is Gitlink
}

/// Whether the index holds a gitlink at `path`.
pub fn check_gitlink_exists(repo: &RepoScan, path: &str) -> (r: bool)
    ensures
        r == has_gitlink(*repo, path@),
{
    let mut k: usize = 0;
    while k < repo.entries.len()
        invariant
            k <= repo.entries@.len(),
            forall|j: int|
                0 <= j < k ==> !((#[trigger] repo.entries@[j]).path@ == path@
                    && repo.entries@[j].kind is Gitlink),
        decreases repo.entries@.len() - k,
    {
        let e = &repo.entries[k];
        proof {
            assert(repo.entries@[k as int] == *e);
        }
        if same_text(e.path.as_str(), path) {
            match e.kind {
                EntryKind::Gitlink(_) => {
                    return true;
                },
                _ => {},
            }
        }
        k = k + 1;
    }
    false
}

/// Registers the submodule's metadata in the parent repository.
pub fn init(repo_path: &str, submodule_path: &str) -> (r: Git)
    ensures
        r.git_dir is None,
        r.work_tree is None,
        opt_view(r.cwd) == Some(repo_path@),
        str_views(r.args@) == seq!["submodule"@, "init"@, "--"@, submodule_path@],
{
    let g = git().cwd(repo_path);
    let g = g.arg("submodule");
    let g = g.arg("init");
    let g = g.arg("--");
    let g = g.arg(submodule_path);
    proof {
        reveal_strlit("--");
        reveal_strlit("init");
        reveal_strlit("submodule");
        assert(str_views(g.args@) =~= seq!["submodule"@, "init"@, "--"@, submodule_path@]);
    }
    g
}

/// Inserts a gitlink at `submodule_path` pinned to `commit_sha` into the index.
pub fn add_gitlink(repo_path: &str, submodule_path: &str, commit_sha: &str) -> (r: Git)
    ensures
        r.git_dir is None,
        r.work_tree is None,
        opt_view(r.cwd) == Some(repo_path@),
        str_views(r.args@) == seq!["update-index"@, "--add"@, "--cacheinfo"@, "160000"@, commit_sha@, submodule_path@],
{
    let g = git().cwd(repo_path);
    let g = g.arg("update-index");
    let g = g.arg("--add");
    let g = g.arg("--cacheinfo");
    let g = g.arg("160000");
    let g = g.arg(commit_sha);
    let g = g.arg(submodule_path);
    proof {
        reveal_strlit("--add");
        reveal_strlit("--cacheinfo");
        reveal_strlit("160000");
        reveal_strlit("update-index");
        assert(str_views(g.args@) =~= seq!["update-index"@, "--add"@, "--cacheinfo"@, "160000"@, commit_sha@, submodule_path@]);
    }
    g
}

/// Lists the index entry at `submodule_path` with its mode and object; [`gitlink_sha_from_stage`] reads its output.
pub fn get_gitlink_sha(repo_path: &str, submodule_path: &str) -> (r: Git)
    ensures
        r.git_dir is None,
        r.work_tree is None,
        opt_view(r.cwd) == Some(repo_path@),
        str_views(r.args@) == seq!["ls-files"@, "--stage"@, "--"@, submodule_path@],
{
    let g = git().cwd(repo_path);
    let g = g.arg("ls-files");
    let g = g.arg("--stage");
    let g = g.arg("--");
    let g = g.arg(submodule_path);
    proof {
        reveal_strlit("--");
        reveal_strlit("--stage");
        reveal_strlit("ls-files");
        assert(str_views(g.args@) =~= seq!["ls-files"@, "--stage"@, "--"@, submodule_path@]);
    }
    g
}

/// Marks the modules repository as having a working tree.
pub fn config_not_bare(modules_path: &str) -> (r: Git)
    ensures
        opt_view(r.git_dir) == Some(modules_path@),
        r.work_tree is None,
        r.cwd is None,
        str_views(r.args@) == seq!["config"@, "core.bare"@, "false"@],
{
    let g = git().git_dir(modules_path);
    let g = g.arg("config");
    let g = g.arg("core.bare");
    let g = g.arg("false");
    proof {
        reveal_strlit("config");
        reveal_strlit("core.bare");
        reveal_strlit("false");
        assert(str_views(g.args@) =~= seq!["config"@, "core.bare"@, "false"@]);
    }
    g
}

/// Points the modules repository at the submodule's working tree.
pub fn config_core_worktree(modules_path: &str, worktree_path: &str) -> (r: Git)
    ensures
        opt_view(r.git_dir) == Some(modules_path@),
        r.work_tree is None,
        r.cwd is None,
        str_views(r.args@) == seq!["config"@, "core.worktree"@, worktree_path@],
{
    let g = git().git_dir(modules_path);
    let g = g.arg("config");
    let g = g.arg("core.worktree");
    let g = g.arg(worktree_path);
    proof {
        reveal_strlit("config");
        reveal_strlit("core.worktree");
        assert(str_views(g.args@) =~= seq!["config"@, "core.worktree"@, worktree_path@]);
    }
    g
}

/// Prints the URL of remote `name`; it fails when the remote is missing.
pub fn remote_get_url(git_dir: &str, name: &str) -> (r: Git)
    ensures
        opt_view(r.git_dir) == Some(git_dir@),
        r.work_tree is None,
        r.cwd is None,
        str_views(r.args@) == seq!["remote"@, "get-url"@, name@],
{
    let g = git().git_dir(git_dir);
    let g = g.arg("remote");
    let g = g.arg("get-url");
    let g = g.arg(name);
    proof {
        reveal_strlit("get-url");
        reveal_strlit("remote");
        assert(str_views(g.args@) =~= seq!["remote"@, "get-url"@, name@]);
    }
    g
}

/// Adds remote `name` with `url`.
pub fn remote_add(git_dir: &str, name: &str, url: &str) -> (r: Git)
    ensures
        opt_view(r.git_dir) == Some(git_dir@),
        r.work_tree is None,
        r.cwd is None,
        str_views(r.args@) == seq!["remote"@, "add"@, name@, url@],
{
    let g = git().git_dir(git_dir);
    let g = g.arg("remote");
    let g = g.arg("add");
    let g = g.arg(name);
    let g = g.arg(url);
    proof {
        reveal_strlit("add");
        reveal_strlit("remote");
        assert(str_views(g.args@) =~= seq!["remote"@, "add"@, name@, url@]);
    }
    g
}

/// Fetches `refspec` from `remote` with its full history.
pub fn fetch_full(git_dir: &str, remote: &str, refspec: &str) -> (r: Git)
    ensures
        opt_view(r.git_dir) == Some(git_dir@),
        r.work_tree is None,
        r.cwd is None,
        str_views(r.args@) == seq!["fetch"@, remote@, refspec@],
{
    let g = git().git_dir(git_dir);
    let g = g.arg("fetch");
    let g = g.arg(remote);
    let g = g.arg(refspec);
    proof {
        reveal_strlit("fetch");
        assert(str_views(g.args@) =~= seq!["fetch"@, remote@, refspec@]);
    }
    g
}

/// Fetches only the tip commit of `refspec` from `remote`.
pub fn fetch_shallow(git_dir: &str, remote: &str, refspec: &str) -> (r: Git)
    ensures
        opt_view(r.git_dir) == Some(git_dir@),
        r.work_tree is None,
        r.cwd is None,
        str_views(r.args@) == seq!["fetch"@, "--depth=1"@, remote@, refspec@],
{
    let g = git().git_dir(git_dir);
    let g = g.arg("fetch");
    let g = g.arg("--depth=1");
    let g = g.arg(remote);
    let g = g.arg(refspec);
    proof {
        reveal_strlit("--depth=1");
        reveal_strlit("fetch");
        assert(str_views(g.args@) =~= seq!["fetch"@, "--depth=1"@, remote@, refspec@]);
    }
    g
}

/// Resolves the commit that the last fetch brought.
pub fn rev_parse_fetch_head(git_dir: &str) -> (r: Git)
    ensures
        opt_view(r.git_dir) == Some(git_dir@),
        r.work_tree is None,
        r.cwd is None,
        str_views(r.args@) == seq!["rev-parse"@, "FETCH_HEAD"@],
{
    let g = git().git_dir(git_dir);
    let g = g.arg("rev-parse");
    let g = g.arg("FETCH_HEAD");
    proof {
        reveal_strlit("FETCH_HEAD");
        reveal_strlit("rev-parse");
        assert(str_views(g.args@) =~= seq!["rev-parse"@, "FETCH_HEAD"@]);
    }
    g
}

/// Points `HEAD` at `commit_sha`.
pub fn update_head(git_dir: &str, commit_sha: &str) -> (r: Git)
    ensures
        opt_view(r.git_dir) == Some(git_dir@),
        r.work_tree is None,
        r.cwd is None,
        str_views(r.args@) == seq!["update-ref"@, "HEAD"@, commit_sha@],
{
    let g = git().git_dir(git_dir);
    let g = g.arg("update-ref");
    let g = g.arg("HEAD");
    let g = g.arg(commit_sha);
    proof {
        reveal_strlit("HEAD");
        reveal_strlit("update-ref");
        assert(str_views(g.args@) =~= seq!["update-ref"@, "HEAD"@, commit_sha@]);
    }
    g
}

/// Points the ref `branch_ref` at `commit_sha`.
pub fn update_branch(git_dir: &str, branch_ref: &str, commit_sha: &str) -> (r: Git)
    ensures
        opt_view(r.git_dir) == Some(git_dir@),
        r.work_tree is None,
        r.cwd is None,
        str_views(r.args@) == seq!["update-ref"@, branch_ref@, commit_sha@],
{
    let g = git().git_dir(git_dir);
    let g = g.arg("update-ref");
    let g = g.arg(branch_ref);
    let g = g.arg(commit_sha);
    proof {
        reveal_strlit("update-ref");
        assert(str_views(g.args@) =~= seq!["update-ref"@, branch_ref@, commit_sha@]);
    }
    g
}

/// Makes `HEAD` a symbolic ref to `branch_ref`.
pub fn symbolic_head(git_dir: &str, branch_ref: &str) -> (r: Git)
    ensures
        opt_view(r.git_dir) == Some(git_dir@),
        r.work_tree is None,
        r.cwd is None,
        str_views(r.args@) == seq!["symbolic-ref"@, "HEAD"@, branch_ref@],
{
    let g = git().git_dir(git_dir);
    let g = g.arg("symbolic-ref");
    let g = g.arg("HEAD");
    let g = g.arg(branch_ref);
    proof {
        reveal_strlit("HEAD");
        reveal_strlit("symbolic-ref");
        assert(str_views(g.args@) =~= seq!["symbolic-ref"@, "HEAD"@, branch_ref@]);
    }
    g
}

/// Succeeds when the object database holds `commit_sha`.
pub fn has_commit(git_dir: &str, commit_sha: &str) -> (r: Git)
    ensures
        opt_view(r.git_dir) == Some(git_dir@),
        r.work_tree is None,
        r.cwd is None,
        str_views(r.args@) == seq!["cat-file"@, "-e"@, commit_sha@],
{
    let g = git().git_dir(git_dir);
    let g = g.arg("cat-file");
    let g = g.arg("-e");
    let g = g.arg(commit_sha);
    proof {
        reveal_strlit("-e");
        reveal_strlit("cat-file");
        assert(str_views(g.args@) =~= seq!["cat-file"@, "-e"@, commit_sha@]);
    }
    g
}

/// `--depth=<n>` when a depth is given.
pub open spec fn depth_args(depth: Option<u32>) -> Seq<Seq<char>> {
    match depth {
        Some(d) => seq![seq!['-', '-', 'd', 'e', 'p', 't', 'h', '='] + decimal(d as nat)],
        None => Seq::empty(),
    }
}

/// Fetches `refspec` from `remote`, only the last `depth` commits when a depth is given.
pub fn fetch(git_dir: &str, remote: &str, refspec: &str, depth: Option<u32>) -> (r: Git)
    ensures
        opt_view(r.git_dir) == Some(git_dir@),
        r.work_tree is None,
        r.cwd is None,
        str_views(r.args@) == seq!["fetch"@] + depth_args(depth) + seq![remote@, refspec@],
{
    let g = git().git_dir(git_dir).arg("fetch");
    let g = match depth {
        Some(d) => {
            let mut opt = "--depth=".to_owned();
            let ds = decimal_text(d as usize);
            opt.append(ds.as_str());
            proof {
                reveal_strlit("--depth=");
                assert("--depth="@ =~= seq!['-', '-', 'd', 'e', 'p', 't', 'h', '=']);
            }
            g.arg(opt.as_str())
        },
        None => g,
    };
    let g = g.arg(remote).arg(refspec);
    proof {
        assert(str_views(g.args@) =~= seq!["fetch"@] + depth_args(depth) + seq![remote@, refspec@]);
    }
    g
}

/// The ref of local branch `branch`.
pub open spec fn branch_ref(branch: Seq<char>) -> Seq<char> {
    seq!['r', 'e', 'f', 's', '/', 'h', 'e', 'a', 'd', 's', '/'] + branch
}

/// `refs/heads/<branch>`.
pub fn branch_ref_text(branch: &str) -> (r: String)
    ensures
        r@ == branch_ref(branch@),
{
    let mut r = "refs/heads/".to_owned();
    r.append(branch);
    proof {
        reveal_strlit("refs/heads/");
        assert("refs/heads/"@ =~= seq!['r', 'e', 'f', 's', '/', 'h', 'e', 'a', 'd', 's', '/']);
    }
    r
}

/// Configures the modules repository for its working tree: not bare, and
/// `core.worktree` pointing at the working directory.
pub fn configure_modules_repo(modules_path: &str, worktree_path: &str) -> (r: (Git, Git))
    ensures
        opt_view(r.0.git_dir) == Some(modules_path@),
        str_views(r.0.args@) == seq!["config"@, "core.bare"@, "false"@],
        opt_view(r.1.git_dir) == Some(modules_path@),
        str_views(r.1.args@) == seq!["config"@, "core.worktree"@, worktree_path@],
{
    (config_not_bare(modules_path), config_core_worktree(modules_path, worktree_path))
}

/// The invocation that adds remote `name`, unless the probe with
/// [`remote_get_url`] found it.
pub fn add_remote_if_missing(git_dir: &str, name: &str, url: &str, exists: bool) -> (r: Option<Git>)
    ensures
        exists ==> r is None,
        !exists ==> (r matches Some(g) && opt_view(g.git_dir) == Some(git_dir@) && str_views(g.args@)
            == seq!["remote"@, "add"@, name@, url@]),
{
    if exists {
        None
    } else {
        Some(remote_add(git_dir, name, url))
    }
}

/// The invocation that creates the modules repository, unless it exists.
pub fn setup_modules_directory(modules_path: &str, exists: bool) -> (r: Option<Git>)
    ensures
        exists ==> r is None,
        !exists ==> (r matches Some(g) && str_views(g.args@) == seq!["init"@, "--bare"@, "-q"@, modules_path@]),
{
    if exists {
        None
    } else {
        Some(crate::repository::init_bare(modules_path))
    }
}

/// Moves `HEAD` and the branch to `commit_sha`, then makes `HEAD` follow the branch.
pub fn update_refs(git_dir: &str, commit_sha: &str, branch: &str) -> (r: (Git, Git, Git))
    ensures
        opt_view(r.0.git_dir) == Some(git_dir@),
        str_views(r.0.args@) == seq!["update-ref"@, "HEAD"@, commit_sha@],
        opt_view(r.1.git_dir) == Some(git_dir@),
        str_views(r.1.args@) == seq!["update-ref"@, branch_ref(branch@), commit_sha@],
        opt_view(r.2.git_dir) == Some(git_dir@),
        str_views(r.2.args@) == seq!["symbolic-ref"@, "HEAD"@, branch_ref(branch@)],
{
    let b = branch_ref_text(branch);
    (update_head(git_dir, commit_sha), update_branch(git_dir, b.as_str(), commit_sha), symbolic_head(git_dir, b.as_str()))
}

/// Whether the commit must be fetched: the probe with [`has_commit`] did not find it.
pub fn needs_fetch(commit_present: bool) -> (r: bool)
    ensures
        r == !commit_present,
{
    !commit_present
}

/// The strings joined by `sep`.
pub fn join_parts(parts: &Vec<String>, sep: &str) -> (r: String)
    ensures
        r@ == join_sep(parts@.map_values(|c: String| c@), sep@),
{
    let ghost cv = parts@.map_values(|c: String| c@);
    let mut r = String::new();
    let mut i: usize = 0;
    while i < parts.len()
        invariant
            cv == parts@.map_values(|c: String| c@),
            i <= parts@.len(),
            r@ == join_sep(cv.take(i as int), sep@),
        decreases parts@.len() - i,
    {
        proof {
            assert(cv.take(i + 1).drop_last() =~= cv.take(i as int));
            assert(cv.take(i + 1).last() == parts@[i as int]@);
        }
        if i > 0 {
            r.append(sep);
        }
        r.append(parts[i].as_str());
        proof {
            if i == 0 {
                assert(r@ =~= cv.take(1)[0]);
            }
        }
        i = i + 1;
    }
    proof {
        assert(cv.take(parts@.len() as int) =~= cv);
    }
    r
}

} // verus!
