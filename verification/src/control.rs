//! Decisions of the application around repository operations: what a git
//! command on a repository turns into (a refusal, a confirmation prompt or
//! an operation to run, with its messages).
use vstd::prelude::*;
use crate::config::{Config, RepoNameFormat};
use crate::repo::{display_name_spec, DisplayRow, RepoEntry, RepoId, RepoList};
use crate::text::{owned, push_str, str_eq, string_views};
use crate::dialogs::CommitInput;

verus! {

/// A git command the user asked for on a repository. The `Run...`
/// commands are the confirmed forms of the commands that ask first.
#[derive(Debug)]
pub enum GitCommand {
    Push,
    Publish,
    CreateGitHubRepo { private: bool, name: String },
    Pull,
    PullRebase,
    RunPullRebase,
    PullSubmodules,
    RunPullSubmodules,
    RemoveOrigin,
    RunRemoveOrigin,
    SubmoduleUpdate,
    SubmoduleSync,
    SubmoduleUpdateLatest,
    RunSubmoduleUpdateLatest,
}

/// The work of a git operation.
#[derive(Debug)]
pub enum GitOperation {
    /// Push the current branch to its upstream.
    Push,
    /// Push this branch to `origin` and set it as upstream.
    Publish(String),
    /// Create a GitHub repository with this name and visibility.
    CreateGitHubRepo { name: String, private: bool },
    /// Run git with these arguments.
    Args(Vec<String>),
}

/// What a git command turns into.
#[derive(Debug)]
pub enum GitPlan {
    /// The repository is not in the list.
    Nothing,
    /// The command is refused with this message.
    Error(String),
    /// Nothing to do; this message says why.
    Info(String),
    /// Ask this question first; on yes, run `then` on the same repository.
    Confirm { prompt: String, then: GitCommand },
    /// Run the operation on repository `index`, showing `progress` while it
    /// runs and `success` when it succeeds; a failure is reported with
    /// `error_context` in front, where there is one.
    Run { index: usize, operation: GitOperation, progress: String, success: String, error_context: Option<&'static str> },
}

/// Branch, whether it has an upstream, and how many commits are ahead, of
/// an entry (empty, no and 0 before its status is known).
pub open spec fn branch_state(e: RepoEntry) -> (Seq<char>, bool, usize) {
    match e.status {
        Some(st) => (st.branch@, st.has_upstream, st.ahead),
        None => (Seq::empty(), false, 0usize),
    }
}

/// A branch name that stands for a detached HEAD.
pub open spec fn detached(branch: Seq<char>) -> bool {
    branch.len() == 0 || branch == "(no branch)"@ || branch == "HEAD"@
}

/// A branch that a pull names explicitly.
pub open spec fn named_branch(branch: Seq<char>) -> bool {
    branch.len() > 0 && branch != "(no branch)"@
}

/// `r` is an operation on repository `idx` with these texts.
pub open spec fn runs(
    r: GitPlan,
    idx: usize,
    op: spec_fn(GitOperation) -> bool,
    progress: Seq<char>,
    success: Seq<char>,
    context: Option<Seq<char>>,
) -> bool {
    r matches GitPlan::Run { index, operation, progress: p, success: s, error_context: c } && index == idx && op(
        operation,
    ) && p@ == progress && s@ == success && match (c, context) {
        (Some(a), Some(b)) => a@ == b,
        (None, None) => true,
        _ => false,
    }
}

/// An operation that runs git with arguments `args`.
pub open spec fn runs_args(args: Seq<Seq<char>>) -> spec_fn(GitOperation) -> bool {
    |o: GitOperation| o matches GitOperation::Args(v) && string_views(v@) == args
}

/// Arguments of a pull, naming `origin` and the branch when there is one.
pub open spec fn pull_args(base: Seq<Seq<char>>, branch: Seq<char>) -> Seq<Seq<char>> {
    if named_branch(branch) { base + seq!["origin"@, branch] } else { base }
}

/// `r` asks `prompt` and then runs `then`.
pub open spec fn confirms(r: GitPlan, prompt: Seq<char>, then: spec_fn(GitCommand) -> bool) -> bool {
    r matches GitPlan::Confirm { prompt: p, then: t } && p@ == prompt && then(t)
}

/// What command `cmd` on entry `e` (at position `idx`, named in `format`)
/// turns into.
pub open spec fn git_plan_is(r: GitPlan, e: RepoEntry, idx: usize, cmd: GitCommand, format: RepoNameFormat) -> bool {
    let name = display_name_spec(e, format, false);
    let (branch, has_upstream, ahead) = branch_state(e);
    match cmd {
        GitCommand::Push => if detached(branch) {
            r matches GitPlan::Error(m) && m@ == "Cannot push detached HEAD"@
        } else if !has_upstream {
            r matches GitPlan::Error(m) && m@ == "Branch '"@ + branch + "' has no upstream; press P to publish"@
        } else if ahead == 0 {
            r matches GitPlan::Info(m) && m@ == "Nothing to push"@
        } else {
            runs(r, idx, |o: GitOperation| o is Push, "Pushing to "@ + name + "..."@, "Pushed "@ + name, None)
        },
        GitCommand::Publish => runs(
            r,
            idx,
            |o: GitOperation| o matches GitOperation::Publish(b) && b@ == branch,
            "Publishing "@ + name + "..."@,
            "Published "@ + name + ":"@ + branch,
            Some("Publish failed"@),
        ),
        GitCommand::CreateGitHubRepo { private, name: repo } => {
            let visibility = if private { "private"@ } else { "public"@ };
            runs(
                r,
                idx,
                |o: GitOperation| o matches GitOperation::CreateGitHubRepo { name: n, private: p } && n@ == repo@ && p == private,
                "Creating "@ + visibility + " GitHub repo "@ + repo@ + "..."@,
                "Created "@ + visibility + " GitHub repo "@ + repo@,
                Some("Create GitHub repo failed"@),
            )
        },
        GitCommand::PullRebase => confirms(r, "Pull --rebase "@ + name + "?"@, |t: GitCommand| t is RunPullRebase),
        GitCommand::PullSubmodules => confirms(
            r,
            "Pull submodules for "@ + name + "?"@,
            |t: GitCommand| t is RunPullSubmodules,
        ),
        GitCommand::RemoveOrigin => confirms(
            r,
            "Remove origin remote from "@ + name + "?"@,
            |t: GitCommand| t is RunRemoveOrigin,
        ),
        GitCommand::SubmoduleUpdateLatest => confirms(
            r,
            "Pull latest in all submodules for "@ + name + "?"@,
            |t: GitCommand| t is RunSubmoduleUpdateLatest,
        ),
        GitCommand::Pull => runs(
            r,
            idx,
            runs_args(pull_args(seq!["pull"@], branch)),
            "Pulling "@ + name + "..."@,
            "Pulled "@ + name,
            None,
        ),
        GitCommand::RunPullRebase => runs(
            r,
            idx,
            runs_args(pull_args(seq!["pull"@, "--rebase"@], branch)),
            "Rebasing "@ + name + "..."@,
            "Rebased "@ + name,
            None,
        ),
        GitCommand::RunPullSubmodules => runs(
            r,
            idx,
            runs_args(pull_args(seq!["pull"@, "--recurse-submodules"@], branch)),
            "Pulling submodules for "@ + name + "..."@,
            "Pulled submodules for "@ + name,
            None,
        ),
        GitCommand::RunRemoveOrigin => runs(
            r,
            idx,
            runs_args(seq!["remote"@, "remove"@, "origin"@]),
            "Removing origin from "@ + name + "..."@,
            "Removed origin from "@ + name,
            None,
        ),
        GitCommand::SubmoduleUpdate => runs(
            r,
            idx,
            runs_args(seq!["submodule"@, "update"@, "--init"@, "--recursive"@]),
            "Updating submodules for "@ + name + "..."@,
            "Updated submodules in "@ + name,
            None,
        ),
        GitCommand::SubmoduleSync => runs(
            r,
            idx,
            runs_args(seq!["submodule"@, "sync"@]),
            "Syncing submodules for "@ + name + "..."@,
            "Synced submodules in "@ + name,
            None,
        ),
        GitCommand::RunSubmoduleUpdateLatest => runs(
            r,
            idx,
            runs_args(seq!["submodule"@, "foreach"@, "git"@, "pull"@, "origin"@, "HEAD"@]),
            "Pulling latest in submodules for "@ + name + "..."@,
            "Pulled latest in submodules for "@ + name,
            None,
        ),
    }
}

/// `a + b` as a new string.
fn concat2(a: &str, b: &str) -> (r: String)
    ensures
        r@ == a@ + b@,
{
    let mut s = owned(a);
    push_str(&mut s, b);
    s
}

/// `a + b + c` as a new string.
fn concat3(a: &str, b: &str, c: &str) -> (r: String)
    ensures
        r@ == a@ + b@ + c@,
{
    let mut s = owned(a);
    push_str(&mut s, b);
    push_str(&mut s, c);
    s
}

/// Owned copies of `args`, in order.
fn strings(args: &[&str]) -> (r: Vec<String>)
    ensures
        r@.len() == args@.len(),
        forall|i: int| 0 <= i < args@.len() ==> #[trigger] r@[i]@ == args@[i]@,
{
    let mut r: Vec<String> = Vec::new();
    let mut i: usize = 0;
    while i < args.len()
        invariant
            i <= args@.len(),
            r@.len() == i,
            forall|j: int| 0 <= j < i ==> #[trigger] r@[j]@ == args@[j]@,
        decreases args@.len() - i,
    {
        r.push(owned(args[i]));
        i = i + 1;
    }
    r
}

/// A run of git with `args` on repository `idx`.
fn run_args(idx: usize, args: Vec<String>, progress: String, success: String) -> (r: GitPlan)
    ensures
        r == (GitPlan::Run { index: idx, operation: GitOperation::Args(args), progress, success, error_context: None }),
{
    GitPlan::Run { index: idx, operation: GitOperation::Args(args), progress, success, error_context: None }
}

/// Turns git command `cmd` on the repository `id` of `list` into a plan:
/// pushing refuses a detached HEAD, a branch without upstream and a branch
/// with nothing to push; pulling rebases, pulling submodules, removing the
/// `origin` remote and pulling the latest submodule commits ask first;
/// pulls name `origin` and the current branch when there is one.
pub fn plan_git_command(list: &RepoList, format: RepoNameFormat, id: &RepoId, cmd: GitCommand) -> (r: GitPlan)
    ensures
        (forall|j: int| 0 <= j < list.repos@.len() ==> #[trigger] list.repos@[j].path@ != id.0@) ==> r is Nothing,
        forall|i: int|
            0 <= i < list.repos@.len() && #[trigger] list.repos@[i].path@ == id.0@ && (forall|j: int|
                0 <= j < i ==> #[trigger] list.repos@[j].path@ != id.0@) ==> git_plan_is(
                r,
                list.repos@[i],
                i as usize,
                cmd,
                format,
            ),
{
    let idx = match list.resolve_index(id) {
        Some(i) => i,
        None => return GitPlan::Nothing,
    };
    assert forall|i: int|
        0 <= i < list.repos@.len() && #[trigger] list.repos@[i].path@ == id.0@ && (forall|j: int|
            0 <= j < i ==> #[trigger] list.repos@[j].path@ != id.0@) implies i == idx by {
        if i < idx {
            assert(list.repos@[i].path@ != id.0@);
        }
        if i > idx {
            assert(list.repos@[idx as int].path@ != id.0@);
        }
    }
    let entry = &list.repos[idx];
    let name = entry.display_name_for_format(format, false);
    let (branch, has_upstream, ahead) = match &entry.status {
        Some(st) => (st.branch.clone(), st.has_upstream, st.ahead),
        None => (String::new(), false, 0usize),
    };
    let named = !branch.as_str().is_empty() && !str_eq(branch.as_str(), "(no branch)");
    assert(named == named_branch(branch@));
    match cmd {
        GitCommand::Push => {
            if branch.as_str().is_empty() || str_eq(branch.as_str(), "(no branch)") || str_eq(branch.as_str(), "HEAD") {
                return GitPlan::Error(owned("Cannot push detached HEAD"));
            }
            if !has_upstream {
                return GitPlan::Error(concat3("Branch '", branch.as_str(), "' has no upstream; press P to publish"));
            }
            if ahead == 0 {
                return GitPlan::Info(owned("Nothing to push"));
            }
            GitPlan::Run {
                index: idx,
                operation: GitOperation::Push,
                progress: concat3("Pushing to ", name.as_str(), "..."),
                success: concat2("Pushed ", name.as_str()),
                error_context: None,
            }
        },
        GitCommand::Publish => {
            let mut success = concat3("Published ", name.as_str(), ":");
            push_str(&mut success, branch.as_str());
            GitPlan::Run {
                index: idx,
                operation: GitOperation::Publish(branch),
                progress: concat3("Publishing ", name.as_str(), "..."),
                success,
                error_context: Some("Publish failed"),
            }
        },
        GitCommand::CreateGitHubRepo { private, name: repo } => {
            let visibility = if private {
                "private"
            } else {
                "public"
            };
            let mut progress = concat3("Creating ", visibility, " GitHub repo ");
            push_str(&mut progress, repo.as_str());
            push_str(&mut progress, "...");
            let success = concat3("Created ", visibility, " GitHub repo ");
            let mut success = success;
            push_str(&mut success, repo.as_str());
            GitPlan::Run {
                index: idx,
                operation: GitOperation::CreateGitHubRepo { name: repo, private },
                progress,
                success,
                error_context: Some("Create GitHub repo failed"),
            }
        },
        GitCommand::PullRebase => GitPlan::Confirm {
            prompt: concat3("Pull --rebase ", name.as_str(), "?"),
            then: GitCommand::RunPullRebase,
        },
        GitCommand::PullSubmodules => GitPlan::Confirm {
            prompt: concat3("Pull submodules for ", name.as_str(), "?"),
            then: GitCommand::RunPullSubmodules,
        },
        GitCommand::RemoveOrigin => GitPlan::Confirm {
            prompt: concat3("Remove origin remote from ", name.as_str(), "?"),
            then: GitCommand::RunRemoveOrigin,
        },
        GitCommand::SubmoduleUpdateLatest => GitPlan::Confirm {
            prompt: concat3("Pull latest in all submodules for ", name.as_str(), "?"),
            then: GitCommand::RunSubmoduleUpdateLatest,
        },
        GitCommand::Pull => {
            let mut args = strings(&["pull"]);
            assert(string_views(args@) =~= seq!["pull"@]);
            if named {
                args.push(owned("origin"));
                args.push(branch);
            }
            assert(string_views(args@) =~= pull_args(seq!["pull"@], branch@));
            run_args(idx, args, concat3("Pulling ", name.as_str(), "..."), concat2("Pulled ", name.as_str()))
        },
        GitCommand::RunPullRebase => {
            let mut args = strings(&["pull", "--rebase"]);
            assert(string_views(args@) =~= seq!["pull"@, "--rebase"@]);
            if named {
                args.push(owned("origin"));
                args.push(branch);
            }
            assert(string_views(args@) =~= pull_args(seq!["pull"@, "--rebase"@], branch@));
            run_args(idx, args, concat3("Rebasing ", name.as_str(), "..."), concat2("Rebased ", name.as_str()))
        },
        GitCommand::RunPullSubmodules => {
            let mut args = strings(&["pull", "--recurse-submodules"]);
            assert(string_views(args@) =~= seq!["pull"@, "--recurse-submodules"@]);
            if named {
                args.push(owned("origin"));
                args.push(branch);
            }
            assert(string_views(args@) =~= pull_args(seq!["pull"@, "--recurse-submodules"@], branch@));
            run_args(
                idx,
                args,
                concat3("Pulling submodules for ", name.as_str(), "..."),
                concat2("Pulled submodules for ", name.as_str()),
            )
        },
        GitCommand::RunRemoveOrigin => {
            let args = strings(&["remote", "remove", "origin"]);
            assert(string_views(args@) =~= seq!["remote"@, "remove"@, "origin"@]);
            run_args(
                idx,
                args,
                concat3("Removing origin from ", name.as_str(), "..."),
                concat2("Removed origin from ", name.as_str()),
            )
        },
        GitCommand::SubmoduleUpdate => {
            let args = strings(&["submodule", "update", "--init", "--recursive"]);
            assert(string_views(args@) =~= seq!["submodule"@, "update"@, "--init"@, "--recursive"@]);
            run_args(
                idx,
                args,
                concat3("Updating submodules for ", name.as_str(), "..."),
                concat2("Updated submodules in ", name.as_str()),
            )
        },
        GitCommand::SubmoduleSync => {
            let args = strings(&["submodule", "sync"]);
            assert(string_views(args@) =~= seq!["submodule"@, "sync"@]);
            run_args(
                idx,
                args,
                concat3("Syncing submodules for ", name.as_str(), "..."),
                concat2("Synced submodules in ", name.as_str()),
            )
        },
        GitCommand::RunSubmoduleUpdateLatest => {
            let args = strings(&["submodule", "foreach", "git", "pull", "origin", "HEAD"]);
            assert(string_views(args@) =~= seq!["submodule"@, "foreach"@, "git"@, "pull"@, "origin"@, "HEAD"@]);
            run_args(
                idx,
                args,
                concat3("Pulling latest in submodules for ", name.as_str(), "..."),
                concat2("Pulled latest in submodules for ", name.as_str()),
            )
        },
    }
}

// ---------------------------------------------------------------------------
// Status queries: which repositories to query, and what changed.
// ---------------------------------------------------------------------------

/// Value stored for `k` in a list of `(key, value)` pairs (its first entry).
pub open spec fn lookup(m: Seq<(String, String)>, k: Seq<char>) -> Option<Seq<char>>
    decreases m.len(),
{
    if m.len() == 0 {
        None
    } else if m[0].0@ == k {
        Some(m[0].1@)
    } else {
        lookup(m.skip(1), k)
    }
}

/// Whether a graph snapshot `key` of the repository at `path` differs from
/// the one recorded in `m` (a first snapshot counts as a change).
pub open spec fn graph_snapshot_changed(m: Seq<(String, String)>, path: Seq<char>, key: Seq<char>) -> bool {
    match lookup(m, path) {
        Some(p) => p != key,
        None => true,
    }
}

/// Whether a remote snapshot `key` differs from the recorded one (a first
/// snapshot counts as a change when it is not empty).
pub open spec fn remote_snapshot_changed(m: Seq<(String, String)>, path: Seq<char>, key: Seq<char>) -> bool {
    match lookup(m, path) {
        Some(p) => p != key,
        None => key.len() > 0,
    }
}

/// The changed-meanwhile set after marking `id`.
pub open spec fn mark_dirty(dirty: Seq<Seq<char>>, id: Seq<char>) -> Seq<Seq<char>> {
    if dirty.contains(id) { dirty } else { dirty.push(id) }
}

/// Paths of a list of status queries.
pub open spec fn query_ids(q: Seq<(RepoId, String)>) -> Seq<Seq<char>> {
    q.map_values(|x: (RepoId, String)| x.0.0@)
}

/// The queries among the first `k` of `q` that start: those whose
/// repository has no query in flight (in `pending`) nor an earlier one in
/// `q`.
pub open spec fn fresh_queries(pending: Seq<Seq<char>>, q: Seq<(RepoId, String)>, k: int) -> Seq<(RepoId, String)>
    decreases k,
{
    if k <= 0 {
        Seq::empty()
    } else {
        let prev = fresh_queries(pending, q, k - 1);
        let x = q[k - 1];
        if pending.contains(x.0.0@) || query_ids(prev).contains(x.0.0@) {
            prev
        } else {
            prev.push(x)
        }
    }
}

/// Whether a local poll queries repository `i`: on a full scan, when it is
/// selected, before its first status, or when it changed meanwhile.
pub open spec fn polls_repo(list: RepoList, dirty: Seq<Seq<char>>, i: int, full_scan: bool) -> bool {
    ||| full_scan
    ||| list.selected_repo_index() == Some(i as usize)
    ||| list.repos@[i].status is None
    ||| dirty.contains(list.repos@[i].path@)
}

/// Queries for the first `k` repositories of `list` that pass `keep`.
pub open spec fn repo_queries(list: RepoList, keep: spec_fn(int) -> bool, k: int) -> Seq<(RepoId, String)>
    decreases k,
{
    if k <= 0 {
        Seq::empty()
    } else {
        let prev = repo_queries(list, keep, k - 1);
        if keep(k - 1) {
            prev.push((RepoId(list.repos@[k - 1].path), list.repos@[k - 1].path))
        } else {
            prev
        }
    }
}

/// Whether `v` holds `s`.
fn holds(v: &Vec<String>, s: &str) -> (r: bool)
    ensures
        r == string_views(v@).contains(s@),
{
    crate::text::contains_string(v, s)
}

/// Adds `s` to the set `v`; tells whether it was absent.
fn set_add(v: &mut Vec<String>, s: &str) -> (r: bool)
    ensures
        r == !string_views(old(v)@).contains(s@),
        string_views(final(v)@) == (if r { string_views(old(v)@).push(s@) } else { string_views(old(v)@) }),
{
    if holds(v, s) {
        false
    } else {
        let ghost before = string_views(v@);
        v.push(owned(s));
        assert(string_views(v@) =~= before.push(s@));
        true
    }
}

/// Removes every copy of `s` from `v`; tells whether there was one.
fn set_remove(v: &mut Vec<String>, s: &str) -> (r: bool)
    ensures
        r == string_views(old(v)@).contains(s@),
        string_views(final(v)@) == string_views(old(v)@).filter(crate::file_list::other_than(s@)),
{
    let ghost pred = crate::file_list::other_than(s@);
    let found = holds(v, s);
    let mut kept: Vec<String> = Vec::new();
    let mut i: usize = 0;
    while i < v.len()
        invariant
            i <= v@.len(),
            v@ == old(v)@,
            pred == crate::file_list::other_than(s@),
            string_views(kept@) == string_views(v@.take(i as int)).filter(pred),
        decreases v@.len() - i,
    {
        proof {
            let a = v@.take(i as int);
            let x = v@[i as int];
            assert(v@.take(i + 1) =~= a.push(x));
            assert(string_views(a.push(x)) =~= string_views(a).push(x@));
            string_views(a).lemma_filter_push(x@, pred);
        }
        if !str_eq(v[i].as_str(), s) {
            kept.push(v[i].clone());
            assert(string_views(kept@) =~= string_views(v@.take(i as int)).filter(pred).push(v@[i as int]@));
        }
        i = i + 1;
    }
    assert(v@.take(i as int) =~= v@);
    *v = kept;
    found
}

/// Sets the value of `k` to `val`; answers the previous value.
fn map_set(m: &mut Vec<(String, String)>, k: String, val: &str) -> (r: Option<String>)
    ensures
        r matches Some(p) ==> lookup(old(m)@, k@) == Some(p@),
        r is None ==> lookup(old(m)@, k@) is None,
        lookup(final(m)@, k@) == Some(val@),
        forall|o: Seq<char>| o != k@ ==> lookup(final(m)@, o) == lookup(old(m)@, o),
{
    let mut i: usize = 0;
    assert(m@.skip(0) =~= m@);
    while i < m.len()
        invariant
            i <= m@.len(),
            m@ == old(m)@,
            lookup(m@, k@) == lookup(m@.skip(i as int), k@),
            forall|j: int| 0 <= j < i ==> (#[trigger] m@[j]).0@ != k@,
        decreases m@.len() - i,
    {
        if str_eq(m[i].0.as_str(), k.as_str()) {
            let prev = m[i].1.clone();
            let ghost before = m@;
            m.set(i, (k, owned(val)));
            proof {
                lemma_lookup_set(before, i as int, m@[i as int], prev@);
            }
            return Some(prev);
        }
        assert(m@.skip(i as int).skip(1) =~= m@.skip(i + 1));
        i = i + 1;
    }
    let ghost before = m@;
    m.push((k, owned(val)));
    proof {
        lemma_lookup_push(before, m@[before.len() as int]);
    }
    None
}

/// Removes the entries of `k`.
fn map_remove(m: &mut Vec<(String, String)>, k: &str)
    ensures
        lookup(final(m)@, k@) is None,
        forall|o: Seq<char>| o != k@ ==> lookup(final(m)@, o) == lookup(old(m)@, o),
{
    let mut kept: Vec<(String, String)> = Vec::new();
    let mut i: usize = 0;
    assert(kept@ + m@.skip(0) =~= m@);
    while i < m.len()
        invariant
            i <= m@.len(),
            lookup(kept@, k@) is None,
            forall|o: Seq<char>| o != k@ ==> lookup(kept@ + m@.skip(i as int), o) == lookup(m@, o),
        decreases m@.len() - i,
    {
        let ghost rest = m@.skip(i as int);
        assert(rest =~= seq![m@[i as int]] + m@.skip(i + 1));
        if !str_eq(m[i].0.as_str(), k) {
            let ghost before = kept@;
            kept.push((m[i].0.clone(), m[i].1.clone()));
            proof {
                assert forall|o: Seq<char>| o != k@ implies lookup(kept@ + m@.skip(i + 1), o) == lookup(m@, o) by {
                    assert(kept@ + m@.skip(i + 1) =~= before + rest);
                }
                lemma_lookup_push(before, kept@[before.len() as int]);
            }
        } else {
            proof {
                assert forall|o: Seq<char>| o != k@ implies lookup(kept@ + m@.skip(i + 1), o) == lookup(m@, o) by {
                    lemma_lookup_skip_key(kept@, m@[i as int], m@.skip(i + 1), o);
                    assert(kept@ + rest =~= kept@ + (seq![m@[i as int]] + m@.skip(i + 1)));
                }
            }
        }
        i = i + 1;
    }
    assert(kept@ + m@.skip(i as int) =~= kept@);
    *m = kept;
}

proof fn lemma_lookup_append(a: Seq<(String, String)>, b: Seq<(String, String)>, o: Seq<char>)
    ensures
        lookup(a + b, o) == (if lookup(a, o) is Some { lookup(a, o) } else { lookup(b, o) }),
    decreases a.len(),
{
    if a.len() > 0 {
        assert((a + b).skip(1) =~= a.skip(1) + b);
        lemma_lookup_append(a.skip(1), b, o);
    } else {
        assert(a + b =~= b);
    }
}

proof fn lemma_lookup_push(a: Seq<(String, String)>, x: (String, String))
    ensures
        lookup(a.push(x), x.0@) == (if lookup(a, x.0@) is Some { lookup(a, x.0@) } else { Some(x.1@) }),
        forall|o: Seq<char>| o != x.0@ ==> lookup(a.push(x), o) == lookup(a, o),
{
    assert(a.push(x) =~= a + seq![x]);
    lemma_lookup_append(a, seq![x], x.0@);
    assert(seq![x].skip(1) =~= Seq::<(String, String)>::empty());
    assert forall|o: Seq<char>| o != x.0@ implies lookup(a.push(x), o) == lookup(a, o) by {
        lemma_lookup_append(a, seq![x], o);
        assert(lookup(seq![x].skip(1), o) is None);
    }
}

proof fn lemma_lookup_skip_key(a: Seq<(String, String)>, x: (String, String), b: Seq<(String, String)>, o: Seq<char>)
    requires
        o != x.0@,
    ensures
        lookup(a + (seq![x] + b), o) == lookup(a + b, o),
{
    lemma_lookup_append(a, seq![x] + b, o);
    lemma_lookup_append(a, b, o);
    assert((seq![x] + b).skip(1) =~= b);
}

proof fn lemma_lookup_set(m: Seq<(String, String)>, i: int, x: (String, String), prev: Seq<char>)
    requires
        0 <= i < m.len(),
        forall|j: int| 0 <= j < i ==> (#[trigger] m[j]).0@ != x.0@,
        m[i].0@ == x.0@,
        m[i].1@ == prev,
    ensures
        lookup(m, x.0@) == Some(prev),
        lookup(m.update(i, x), x.0@) == Some(x.1@),
        forall|o: Seq<char>| o != x.0@ ==> lookup(m.update(i, x), o) == lookup(m, o),
{
    let a = m.take(i);
    let b = m.skip(i + 1);
    assert(m =~= a + (seq![m[i]] + b));
    assert(m.update(i, x) =~= a + (seq![x] + b));
    lemma_lookup_none_prefix(a, x.0@);
    lemma_lookup_append(a, seq![m[i]] + b, x.0@);
    lemma_lookup_append(a, seq![x] + b, x.0@);
    assert forall|o: Seq<char>| o != x.0@ implies lookup(m.update(i, x), o) == lookup(m, o) by {
        lemma_lookup_skip_key(a, x, b, o);
        lemma_lookup_skip_key(a, m[i], b, o);
    }
}

proof fn lemma_lookup_none_prefix(a: Seq<(String, String)>, k: Seq<char>)
    requires
        forall|j: int| 0 <= j < a.len() ==> (#[trigger] a[j]).0@ != k,
    ensures
        lookup(a, k) is None,
    decreases a.len(),
{
    if a.len() > 0 {
        lemma_lookup_none_prefix(a.skip(1), k);
    }
}

/// Bookkeeping of status queries.
#[derive(Debug)]
pub struct StatusTracker {
    /// Repositories with a status query in flight.
    pub pending: Vec<String>,
    /// Repositories that changed while their query was in flight.
    pub dirty: Vec<String>,
    /// Last graph snapshot per repository path.
    pub graph_keys: Vec<(String, String)>,
    /// Last remote snapshot per repository path.
    pub remote_keys: Vec<(String, String)>,
    /// Local polls since the start.
    pub local_poll_tick: usize,
}

impl StatusTracker {
    /// Nothing in flight, nothing known.
    pub fn new() -> (r: Self)
        ensures
            r.pending@.len() == 0,
            r.dirty@.len() == 0,
            r.graph_keys@.len() == 0,
            r.remote_keys@.len() == 0,
            r.local_poll_tick == 0,
    {
        StatusTracker {
            pending: Vec::new(),
            dirty: Vec::new(),
            graph_keys: Vec::new(),
            remote_keys: Vec::new(),
            local_poll_tick: 0,
        }
    }

    /// Starts the queries of `queries` whose repository has none in flight
    /// (each repository once); answers them.
    pub fn queue(&mut self, queries: Vec<(RepoId, String)>) -> (r: Vec<(RepoId, String)>)
        ensures
            r@ == fresh_queries(string_views(old(self).pending@), queries@, queries@.len() as int),
            string_views(final(self).pending@) == string_views(old(self).pending@) + query_ids(r@),
            final(self).dirty == old(self).dirty,
            final(self).graph_keys == old(self).graph_keys,
            final(self).remote_keys == old(self).remote_keys,
            final(self).local_poll_tick == old(self).local_poll_tick,
    {
        let ghost p0 = string_views(self.pending@);
        let mut started: Vec<(RepoId, String)> = Vec::new();
        let mut i: usize = 0;
        while i < queries.len()
            invariant
                i <= queries@.len(),
                started@ == fresh_queries(p0, queries@, i as int),
                string_views(self.pending@) == p0 + query_ids(started@),
                self.dirty == old(self).dirty,
                self.graph_keys == old(self).graph_keys,
                self.remote_keys == old(self).remote_keys,
                self.local_poll_tick == old(self).local_poll_tick,
            decreases queries@.len() - i,
        {
            let id = queries[i].0.clone();
            proof {
                let ids = query_ids(started@);
                assert forall|s: Seq<char>| (p0 + ids).contains(s) == (p0.contains(s) || ids.contains(s)) by {
                    if (p0 + ids).contains(s) {
                        let k = choose|k: int| 0 <= k < (p0 + ids).len() && (p0 + ids)[k] == s;
                        if k < p0.len() {
                            assert(p0[k] == s);
                        } else {
                            assert(ids[k - p0.len()] == s);
                        }
                    }
                    if p0.contains(s) {
                        let k = choose|k: int| 0 <= k < p0.len() && p0[k] == s;
                        assert((p0 + ids)[k] == s);
                    }
                    if ids.contains(s) {
                        let k = choose|k: int| 0 <= k < ids.len() && ids[k] == s;
                        assert((p0 + ids)[p0.len() + k] == s);
                    }
                }
            }
            if set_add(&mut self.pending, id.0.as_str()) {
                started.push((id, queries[i].1.clone()));
                assert(query_ids(started@) =~= query_ids(fresh_queries(p0, queries@, i as int)).push(queries@[i as int].0.0@));
            }
            i = i + 1;
        }
        started
    }

    /// A local poll: every `full_every` polls (and on the first) all
    /// repositories are queried, otherwise only the selected one, those
    /// without status and those that changed meanwhile; repositories with an
    /// operation or a query in flight are skipped.
    pub fn poll_local(&mut self, list: &RepoList, full_every: usize) -> (r: Vec<(RepoId, String)>)
        ensures
            ({
                let every = if full_every == 0 { 1 } else { full_every as int };
                let full_scan = old(self).local_poll_tick == 0 || (old(self).local_poll_tick as int) % every == 0;
                let pending = string_views(old(self).pending@);
                let dirty = string_views(old(self).dirty@);
                let keep = |i: int| !list.repos@[i].git_op && !pending.contains(list.repos@[i].path@) && polls_repo(
                    *list,
                    dirty,
                    i,
                    full_scan,
                );
                let q = repo_queries(*list, keep, list.repos@.len() as int);
                &&& r@ == fresh_queries(pending, q, q.len() as int)
                &&& string_views(final(self).pending@) == pending + query_ids(r@)
            }),
            final(self).local_poll_tick == (if old(self).local_poll_tick < usize::MAX {
                old(self).local_poll_tick + 1
            } else {
                usize::MAX as int
            }),
            final(self).dirty == old(self).dirty,
            final(self).graph_keys == old(self).graph_keys,
            final(self).remote_keys == old(self).remote_keys,
    {
        let every = if full_every == 0 {
            1
        } else {
            full_every
        };
        let full_scan = self.local_poll_tick == 0 || self.local_poll_tick % every == 0;
        self.local_poll_tick = self.local_poll_tick.saturating_add(1);
        let selected = list.selected_index();
        let ghost pending = string_views(self.pending@);
        let ghost dirty = string_views(self.dirty@);
        let ghost keep = |i: int| !list.repos@[i].git_op && !pending.contains(list.repos@[i].path@) && polls_repo(
            *list,
            dirty,
            i,
            full_scan,
        );
        let mut q: Vec<(RepoId, String)> = Vec::new();
        let mut i: usize = 0;
        while i < list.repos.len()
            invariant
                i <= list.repos@.len(),
                q@ == repo_queries(*list, keep, i as int),
                pending == string_views(self.pending@),
                dirty == string_views(self.dirty@),
                selected == list.selected_repo_index(),
                keep == (|i: int| !list.repos@[i].git_op && !pending.contains(list.repos@[i].path@) && polls_repo(
                    *list,
                    dirty,
                    i,
                    full_scan,
                )),
            decreases list.repos@.len() - i,
        {
            let e = &list.repos[i];
            let polls = full_scan || selected == Some(i) || e.status.is_none() || holds(&self.dirty, e.path.as_str());
            if !e.git_op && !holds(&self.pending, e.path.as_str()) && polls {
                q.push((e.id(), e.path.clone()));
            }
            i = i + 1;
        }
        self.queue(q)
    }

    /// A fetch poll: every repository without an operation or a query in
    /// flight, unless fast mode is on.
    pub fn poll_fetch(&mut self, list: &RepoList, fast_mode: bool) -> (r: Vec<(RepoId, String)>)
        ensures
            fast_mode ==> r@.len() == 0 && *final(self) == *old(self),
            !fast_mode ==> ({
                let pending = string_views(old(self).pending@);
                let keep = |i: int| !list.repos@[i].git_op && !pending.contains(list.repos@[i].path@);
                let q = repo_queries(*list, keep, list.repos@.len() as int);
                &&& r@ == fresh_queries(pending, q, q.len() as int)
                &&& string_views(final(self).pending@) == pending + query_ids(r@)
                &&& final(self).dirty == old(self).dirty
                &&& final(self).local_poll_tick == old(self).local_poll_tick
            }),
    {
        if fast_mode {
            return Vec::new();
        }
        let ghost pending = string_views(self.pending@);
        let ghost keep = |i: int| !list.repos@[i].git_op && !pending.contains(list.repos@[i].path@);
        let mut q: Vec<(RepoId, String)> = Vec::new();
        let mut i: usize = 0;
        while i < list.repos.len()
            invariant
                i <= list.repos@.len(),
                q@ == repo_queries(*list, keep, i as int),
                pending == string_views(self.pending@),
                keep == (|i: int| !list.repos@[i].git_op && !pending.contains(list.repos@[i].path@)),
            decreases list.repos@.len() - i,
        {
            let e = &list.repos[i];
            if !e.git_op && !holds(&self.pending, e.path.as_str()) {
                q.push((e.id(), e.path.clone()));
            }
            i = i + 1;
        }
        self.queue(q)
    }

    /// Asks for a fresh status of repository `id`: when a query is in
    /// flight the repository is marked as changed (and queried again once
    /// it answers); otherwise a query starts, if the repository is listed.
    pub fn refresh_repo(&mut self, list: &RepoList, id: &RepoId) -> (r: Vec<(RepoId, String)>)
        ensures
            string_views(old(self).pending@).contains(id.0@) ==> r@.len() == 0 && string_views(final(self).dirty@)
                == mark_dirty(string_views(old(self).dirty@), id.0@) && final(self).pending == old(self).pending,
            !string_views(old(self).pending@).contains(id.0@) ==> final(self).dirty == old(self).dirty && (if exists|j: int|
                0 <= j < list.repos@.len() && #[trigger] list.repos@[j].path@ == id.0@ {
                r@.len() == 1 && r@[0].0 == *id && r@[0].1@ == id.0@ && string_views(final(self).pending@)
                    == string_views(old(self).pending@).push(id.0@)
            } else {
                r@.len() == 0 && final(self).pending == old(self).pending
            }),
            final(self).graph_keys == old(self).graph_keys,
            final(self).remote_keys == old(self).remote_keys,
            final(self).local_poll_tick == old(self).local_poll_tick,
    {
        if holds(&self.pending, id.0.as_str()) {
            let _ = set_add(&mut self.dirty, id.0.as_str());
            return Vec::new();
        }
        match list.resolve_index(id) {
            Some(i) => {
                let path = list.repos[i].path.clone();
                let mut q: Vec<(RepoId, String)> = Vec::new();
                q.push((id.clone(), path));
                let r = self.queue(q);
                proof {
                    let p0 = string_views(old(self).pending@);
                    assert(fresh_queries(p0, q@, 0) =~= Seq::<(RepoId, String)>::empty());
                    assert(query_ids(Seq::<(RepoId, String)>::empty()).len() == 0);
                    assert(fresh_queries(p0, q@, 1) == fresh_queries(p0, q@, 0).push(q@[0]));
                    assert(query_ids(r@) =~= seq![id.0@]);
                }
                r
            },
            None => Vec::new(),
        }
    }

    /// Every repository is marked busy and queried (those with a query in
    /// flight excepted).
    pub fn refresh_all(&mut self, list: &mut RepoList) -> (r: Vec<(RepoId, String)>)
        ensures
            final(list).repos@.len() == old(list).repos@.len(),
            forall|i: int| 0 <= i < old(list).repos@.len() ==> (#[trigger] final(list).repos@[i]) == (RepoEntry {
                git_op: true,
                ..old(list).repos@[i]
            }),
            final(list).selected == old(list).selected,
            final(list).expanded_repos == old(list).expanded_repos,
            final(list).repo_name_format == old(list).repo_name_format,
            ({
                let q = repo_queries(*old(list), |i: int| true, old(list).repos@.len() as int);
                &&& r@ == fresh_queries(string_views(old(self).pending@), q, q.len() as int)
                &&& string_views(final(self).pending@) == string_views(old(self).pending@) + query_ids(r@)
            }),
            final(self).dirty == old(self).dirty,
            final(self).local_poll_tick == old(self).local_poll_tick,
    {
        let ghost keep = |i: int| true;
        let mut q: Vec<(RepoId, String)> = Vec::new();
        let mut i: usize = 0;
        while i < list.repos.len()
            invariant
                i <= list.repos@.len(),
                list.repos@.len() == old(list).repos@.len(),
                forall|j: int| 0 <= j < i ==> (#[trigger] list.repos@[j]) == (RepoEntry { git_op: true, ..old(list).repos@[j] }),
                forall|j: int| i <= j < list.repos@.len() ==> (#[trigger] list.repos@[j]) == old(list).repos@[j],
                list.selected == old(list).selected,
                list.expanded_repos == old(list).expanded_repos,
                list.repo_name_format == old(list).repo_name_format,
                keep == (|i: int| true),
                q@ == repo_queries(*old(list), keep, i as int),
            decreases list.repos@.len() - i,
        {
            q.push((list.repos[i].id(), list.repos[i].path.clone()));
            list.set_git_op(i, true);
            i = i + 1;
        }
        self.queue(q)
    }

    /// A status query of `id` ended without a status: it is no longer in
    /// flight and its repository no longer busy. Answers whether the
    /// repository changed meanwhile (and is to be queried again).
    pub fn status_query_done(&mut self, list: &mut RepoList, id: &RepoId) -> (r: bool)
        ensures
            r == string_views(old(self).dirty@).contains(id.0@),
            string_views(final(self).pending@) == string_views(old(self).pending@).filter(crate::file_list::other_than(id.0@)),
            string_views(final(self).dirty@) == string_views(old(self).dirty@).filter(crate::file_list::other_than(id.0@)),
            final(list).repos@.len() == old(list).repos@.len(),
            forall|i: int|
                0 <= i < old(list).repos@.len() ==> (#[trigger] final(list).repos@[i]) == (if old(list).repos@[i].path@ == id.0@ && forall|j: int|
                    0 <= j < i ==> #[trigger] old(list).repos@[j].path@ != id.0@ {
                    RepoEntry { git_op: false, ..old(list).repos@[i] }
                } else {
                    old(list).repos@[i]
                }),
            final(list).selected == old(list).selected,
            final(list).expanded_repos == old(list).expanded_repos,
            final(list).repo_name_format == old(list).repo_name_format,
    {
        let _ = set_remove(&mut self.pending, id.0.as_str());
        match list.resolve_index(id) {
            Some(i) => {
                list.set_git_op(i, false);
                assert forall|k: int| 0 <= k < old(list).repos@.len() && k != i implies !(old(list).repos@[k].path@ == id.0@
                    && forall|j: int| 0 <= j < k ==> #[trigger] old(list).repos@[j].path@ != id.0@) by {
                    if k > i && old(list).repos@[k].path@ == id.0@ {
                        assert(old(list).repos@[i as int].path@ == id.0@);
                    }
                }
            },
            None => {},
        }
        set_remove(&mut self.dirty, id.0.as_str())
    }

    /// A status of `id` arrived: it is no longer in flight. Answers whether
    /// the repository changed meanwhile (and is to be queried again).
    pub fn status_updated(&mut self, id: &RepoId) -> (r: bool)
        ensures
            r == string_views(old(self).dirty@).contains(id.0@),
            string_views(final(self).pending@) == string_views(old(self).pending@).filter(crate::file_list::other_than(id.0@)),
            string_views(final(self).dirty@) == string_views(old(self).dirty@).filter(crate::file_list::other_than(id.0@)),
            final(self).graph_keys == old(self).graph_keys,
            final(self).remote_keys == old(self).remote_keys,
            final(self).local_poll_tick == old(self).local_poll_tick,
    {
        let _ = set_remove(&mut self.pending, id.0.as_str());
        set_remove(&mut self.dirty, id.0.as_str())
    }

    /// Records the graph snapshot of the repository at `path`; answers
    /// whether it differs from the previous one (a first one counts as a
    /// change).
    pub fn graph_changed(&mut self, path: String, key: &str) -> (r: bool)
        ensures
            r == graph_snapshot_changed(old(self).graph_keys@, path@, key@),
            lookup(final(self).graph_keys@, path@) == Some(key@),
            forall|o: Seq<char>| o != path@ ==> lookup(final(self).graph_keys@, o) == lookup(old(self).graph_keys@, o),
            final(self).pending == old(self).pending,
            final(self).dirty == old(self).dirty,
            final(self).remote_keys == old(self).remote_keys,
    {
        match map_set(&mut self.graph_keys, path, key) {
            Some(prev) => !str_eq(prev.as_str(), key),
            None => true,
        }
    }

    /// Records the remote snapshot of the repository at `path`; answers
    /// whether it differs from the previous one (a first one counts as a
    /// change when it is not empty).
    pub fn remote_changed(&mut self, path: String, key: &str) -> (r: bool)
        ensures
            r == remote_snapshot_changed(old(self).remote_keys@, path@, key@),
            lookup(final(self).remote_keys@, path@) == Some(key@),
            forall|o: Seq<char>| o != path@ ==> lookup(final(self).remote_keys@, o) == lookup(old(self).remote_keys@, o),
            final(self).pending == old(self).pending,
            final(self).dirty == old(self).dirty,
            final(self).graph_keys == old(self).graph_keys,
    {
        match map_set(&mut self.remote_keys, path, key) {
            Some(prev) => !str_eq(prev.as_str(), key),
            None => !key.is_empty(),
        }
    }

    /// Forgets everything about repository `id`.
    pub fn forget(&mut self, id: &RepoId)
        ensures
            string_views(final(self).pending@) == string_views(old(self).pending@).filter(crate::file_list::other_than(id.0@)),
            string_views(final(self).dirty@) == string_views(old(self).dirty@).filter(crate::file_list::other_than(id.0@)),
            lookup(final(self).graph_keys@, id.0@) is None,
            lookup(final(self).remote_keys@, id.0@) is None,
            forall|o: Seq<char>| o != id.0@ ==> lookup(final(self).graph_keys@, o) == lookup(old(self).graph_keys@, o),
            forall|o: Seq<char>| o != id.0@ ==> lookup(final(self).remote_keys@, o) == lookup(old(self).remote_keys@, o),
            final(self).local_poll_tick == old(self).local_poll_tick,
    {
        let _ = set_remove(&mut self.pending, id.0.as_str());
        let _ = set_remove(&mut self.dirty, id.0.as_str());
        map_remove(&mut self.graph_keys, id.0.as_str());
        map_remove(&mut self.remote_keys, id.0.as_str());
    }
}

// ---------------------------------------------------------------------------
// Reactions to arriving statuses, messages and repository actions.
// ---------------------------------------------------------------------------

/// What the graph panel does when a repository's status arrives.
#[derive(Debug, Clone, Copy, PartialEq, Eq, Structural)]
pub enum GraphUpdate {
    Nothing,
    /// Reload once the open commit detail closes.
    DeferReload,
    /// Load the repository's graph.
    Load,
    /// Refresh which commits are pushed, for the shown repository.
    RefreshPushed,
    /// Refresh which commits are pushed, if the repository is shown.
    RefreshPushedForPath,
}

/// What the graph panel does for a status: see [`graph_update`].
pub open spec fn graph_update_spec(
    selected_repo: bool,
    graph_changed: bool,
    remote_changed: bool,
    has_detail: bool,
    generation: u64,
) -> GraphUpdate {
    if selected_repo {
        if graph_changed {
            if has_detail { GraphUpdate::DeferReload } else { GraphUpdate::Load }
        } else if generation == 0 {
            GraphUpdate::Load
        } else if remote_changed {
            GraphUpdate::RefreshPushed
        } else {
            GraphUpdate::Nothing
        }
    } else if remote_changed {
        GraphUpdate::RefreshPushedForPath
    } else {
        GraphUpdate::Nothing
    }
}

/// Graph reaction to a new status: for the selected repository a changed
/// graph reloads (after the detail closes, if one is open), a panel never
/// loaded loads, and changed remotes refresh the pushed markers; for
/// another repository only changed remotes matter.
pub fn graph_update(
    selected_repo: bool,
    graph_changed: bool,
    remote_changed: bool,
    has_detail: bool,
    generation: u64,
) -> (r: GraphUpdate)
    ensures
        r == graph_update_spec(selected_repo, graph_changed, remote_changed, has_detail, generation),
{
    if selected_repo {
        if graph_changed {
            if has_detail {
                GraphUpdate::DeferReload
            } else {
                GraphUpdate::Load
            }
        } else if generation == 0 {
            GraphUpdate::Load
        } else if remote_changed {
            GraphUpdate::RefreshPushed
        } else {
            GraphUpdate::Nothing
        }
    } else if remote_changed {
        GraphUpdate::RefreshPushedForPath
    } else {
        GraphUpdate::Nothing
    }
}

/// Whether a worktree's graph changed: only against a known earlier
/// snapshot (the first snapshot is no change).
pub fn worktree_graph_changed(previous: &Option<String>, key: &str) -> (r: bool)
    ensures
        r == (previous matches Some(p) && p@ != key@),
{
    match previous {
        Some(p) => !str_eq(p.as_str(), key),
        None => false,
    }
}

/// Error text for the status bar: line breaks become spaces, and text
/// longer than 120 characters is cut to 117 followed by `...`.
pub open spec fn sanitized_spec(m: Seq<char>) -> Seq<char> {
    let clean = m.map_values(|c: char| if c == '\n' { ' ' } else { c });
    if clean.len() > 120 { clean.take(117) + "..."@ } else { clean }
}

/// The error text shown for `message`.
pub fn sanitize_error(message: &str) -> (r: String)
    ensures
        r@ == sanitized_spec(message@),
{
    let cs = crate::text::str_chars(message);
    let mut clean: Vec<char> = Vec::new();
    let mut i: usize = 0;
    while i < cs.len()
        invariant
            i <= cs@.len(),
            cs@ == message@,
            clean@ == cs@.take(i as int).map_values(|c: char| if c == '\n' { ' ' } else { c }),
        decreases cs@.len() - i,
    {
        let c = cs[i];
        clean.push(if c == '\n' {
            ' '
        } else {
            c
        });
        assert(cs@.take(i + 1) =~= cs@.take(i as int).push(c));
        assert(clean@ =~= cs@.take(i + 1).map_values(|c: char| if c == '\n' { ' ' } else { c }));
        i = i + 1;
    }
    assert(cs@.take(i as int) =~= cs@);
    if clean.len() > 120 {
        let head = crate::text::sub_chars(clean.as_slice(), 0, 117);
        let mut s = crate::text::chars_to_string(head.as_slice());
        push_str(&mut s, "...");
        assert(head@ =~= clean@.take(117));
        s
    } else {
        crate::text::chars_to_string(clean.as_slice())
    }
}

/// Most entries the operation log keeps.
pub const LOG_CAPACITY: usize = 50;

/// Appends `message` to the operation log, dropping the oldest entry when
/// the log is full.
pub fn push_log(log: &mut Vec<String>, message: String)
    ensures
        final(log)@ == (if old(log)@.len() >= LOG_CAPACITY { old(log)@.skip(1) } else { old(log)@ }).push(message),
{
    if log.len() >= LOG_CAPACITY {
        let _ = log.remove(0);
        assert(log@ =~= old(log)@.skip(1));
    }
    log.push(message);
}

/// Report of a failed operation: `context: error`, or the error alone.
pub fn failure_message(context: Option<&str>, error: &str) -> (r: String)
    ensures
        r@ == match context {
            Some(c) => c@ + ": "@ + error@,
            None => error@,
        },
{
    match context {
        Some(c) => concat3(c, ": ", error),
        None => owned(error),
    }
}

/// The commit message typed in the commit dialog, without surrounding
/// white space; refused when nothing is left.
pub fn check_commit_message(raw: &str) -> (r: Result<String, &'static str>)
    ensures
        crate::text::trim_spec(raw@).len() == 0 <==> r is Err,
        r matches Ok(m) ==> m@ == crate::text::trim_spec(raw@),
        r matches Err(e) ==> e@ == "Commit message is empty"@,
{
    let cs = crate::text::str_chars(raw);
    let t = crate::text::trim_chars(cs.as_slice());
    if t.len() == 0 {
        return Err("Commit message is empty");
    }
    Ok(crate::text::chars_to_string(t.as_slice()))
}

/// Why a repository name typed for a new GitHub repository is refused, if
/// it is: the name is taken without surrounding white space.
pub fn check_new_repo_name(raw: &str) -> (r: Result<String, &'static str>)
    ensures
        match r {
            Ok(name) => name@ == crate::text::trim_spec(raw@) && crate::helpers::valid_repo_name_spec(name@),
            Err(m) => (crate::text::trim_spec(raw@).len() == 0 && m@ == "Repository name is empty"@) || (
            crate::text::trim_spec(raw@).len() > 0 && !crate::helpers::valid_repo_name_spec(crate::text::trim_spec(raw@))
                && m@ == "Repository name can only contain letters, numbers, '.', '_' and '-'"@),
        },
        r is Ok <==> crate::helpers::valid_repo_name_spec(crate::text::trim_spec(raw@)),
{
    let cs = crate::text::str_chars(raw);
    let t = crate::text::trim_chars(cs.as_slice());
    let name = crate::text::chars_to_string(t.as_slice());
    if t.len() == 0 {
        assert(!crate::helpers::valid_repo_name_spec(name@));
        return Err("Repository name is empty");
    }
    if !crate::helpers::is_valid_github_repo_name(name.as_str()) {
        return Err("Repository name can only contain letters, numbers, '.', '_' and '-'");
    }
    Ok(name)
}

/// Texts shown while committing and after: the whole working tree, or the
/// `marked` files.
pub fn commit_texts(repo_name: &str, marked: usize) -> (r: (String, String))
    ensures
        marked == 0 ==> r.0@ == "Committing "@ + repo_name@ + "..."@ && r.1@ == "Committed "@ + repo_name@,
        marked > 0 ==> r.0@ == "Committing "@ + crate::text::decimal(marked as nat) + " file(s) in "@ + repo_name@ + "..."@
            && r.1@ == "Committed "@ + crate::text::decimal(marked as nat) + " file(s) in "@ + repo_name@,
{
    if marked == 0 {
        (concat3("Committing ", repo_name, "..."), concat2("Committed ", repo_name))
    } else {
        let mut p = owned("Committing ");
        crate::text::push_decimal(&mut p, marked as u64);
        push_str(&mut p, " file(s) in ");
        push_str(&mut p, repo_name);
        push_str(&mut p, "...");
        let mut s = owned("Committed ");
        crate::text::push_decimal(&mut s, marked as u64);
        push_str(&mut s, " file(s) in ");
        push_str(&mut s, repo_name);
        (p, s)
    }
}

/// What adding the path `input` as a repository gives: its name when it
/// is a repository (`is_repo`), else the notice to show (remote URLs get
/// their own).
pub fn add_repo_outcome(input: &str, is_repo: bool) -> (r: Result<String, String>)
    ensures
        is_repo ==> (r matches Ok(name) && name@ == match crate::paths::file_name_spec(input@) {
            Some(n) => n,
            None => input@,
        }),
        !is_repo ==> (r matches Err(m) && m@ == (if crate::text::starts_with(input@, "http://"@) || crate::text::starts_with(
            input@,
            "https://"@,
        ) || crate::text::starts_with(input@, "git@"@) {
            "Remote repository URLs are not added directly yet: "@ + input@
                + ". Clone the repo locally first, then add the local path."@
        } else {
            "Not a git repository: "@ + input@
        })),
{
    if is_repo {
        return match crate::paths::file_name(input) {
            Some(n) => Ok(n),
            None => Ok(owned(input)),
        };
    }
    let cs = crate::text::str_chars(input);
    let http = crate::text::str_chars("http://");
    let https = crate::text::str_chars("https://");
    let ssh = crate::text::str_chars("git@");
    if crate::text::starts_with_chars(cs.as_slice(), http.as_slice()) || crate::text::starts_with_chars(
        cs.as_slice(),
        https.as_slice(),
    ) || crate::text::starts_with_chars(cs.as_slice(), ssh.as_slice()) {
        Err(concat3(
            "Remote repository URLs are not added directly yet: ",
            input,
            ". Clone the repo locally first, then add the local path.",
        ))
    } else {
        Err(concat2("Not a git repository: ", input))
    }
}

/// Whether a changed submodule shows its working-tree diff rather than
/// the log between its recorded and checked-out commits: when it has
/// uncommitted changes, or when its commit did not move.
pub fn submodule_shows_diff(old_oid: &str, new_oid: &str, state: crate::status::SubmoduleState) -> (r: bool)
    ensures
        r == (state == crate::status::SubmoduleState::Dirty || !(old_oid@.len() > 0 && new_oid@.len() > 0 && old_oid@
            != new_oid@)),
{
    let moved = !old_oid.is_empty() && !new_oid.is_empty() && !str_eq(old_oid, new_oid);
    state == crate::status::SubmoduleState::Dirty || !moved
}

/// Selection after removing repository `removed` from a list that keeps
/// `remaining` entries: the same position, or the last one.
pub fn index_after_removal(removed: usize, remaining: usize) -> (r: Option<usize>)
    ensures
        r == (if remaining == 0 { None } else if removed < remaining { Some(removed) } else { Some((remaining - 1) as usize) }),
{
    if remaining == 0 {
        None
    } else if removed < remaining {
        Some(removed)
    } else {
        Some(remaining - 1)
    }
}

// ---------------------------------------------------------------------------
// Git command lines and their results.
// ---------------------------------------------------------------------------

/// Arguments of the commit of the whole working tree (after `add .`).
pub open spec fn commit_all_spec(message: Seq<char>, skip_hooks: bool) -> Seq<Seq<char>> {
    if skip_hooks {
        seq!["commit"@, "--no-verify"@, "-m"@, message]
    } else {
        seq!["commit"@, "-m"@, message]
    }
}

/// Arguments to commit everything with `message` (`--no-verify` when hooks
/// are skipped); an empty message is refused.
pub fn commit_all_args(message: &str, skip_hooks: bool) -> (r: Result<Vec<String>, &'static str>)
    ensures
        crate::text::trim_spec(message@).len() == 0 <==> r is Err,
        r matches Err(m) ==> m@ == "commit message is empty"@,
        r matches Ok(v) ==> string_views(v@) == commit_all_spec(message@, skip_hooks),
{
    let cs = crate::text::str_chars(message);
    if crate::text::trim_chars(cs.as_slice()).len() == 0 {
        return Err("commit message is empty");
    }
    let mut args: Vec<String> = Vec::new();
    args.push(owned("commit"));
    if skip_hooks {
        args.push(owned("--no-verify"));
    }
    args.push(owned("-m"));
    args.push(owned(message));
    assert(string_views(args@) =~= commit_all_spec(message@, skip_hooks));
    Ok(args)
}

/// Arguments to stage `paths`, and to commit only them with `message`; an
/// empty message or no path is refused.
pub fn commit_paths_args(message: &str, skip_hooks: bool, paths: &Vec<String>) -> (r: Result<
    (Vec<String>, Vec<String>),
    &'static str,
>)
    ensures
        crate::text::trim_spec(message@).len() == 0 ==> (r matches Err(m) && m@ == "commit message is empty"@),
        crate::text::trim_spec(message@).len() > 0 && paths@.len() == 0 ==> (r matches Err(m) && m@
            == "no files marked"@),
        crate::text::trim_spec(message@).len() > 0 && paths@.len() > 0 ==> (r matches Ok((add, commit)) && string_views(
            add@,
        ) == seq!["add"@, "--"@] + string_views(paths@) && string_views(commit@) == commit_all_spec(message@, skip_hooks)
            + seq!["--"@] + string_views(paths@)),
{
    let cs = crate::text::str_chars(message);
    if crate::text::trim_chars(cs.as_slice()).len() == 0 {
        return Err("commit message is empty");
    }
    if paths.len() == 0 {
        return Err("no files marked");
    }
    let mut add: Vec<String> = Vec::new();
    add.push(owned("add"));
    add.push(owned("--"));
    let mut commit = match commit_all_args(message, skip_hooks) {
        Ok(v) => v,
        Err(e) => return Err(e),
    };
    commit.push(owned("--"));
    let ghost add0 = string_views(add@);
    let ghost commit0 = string_views(commit@);
    let mut i: usize = 0;
    while i < paths.len()
        invariant
            i <= paths@.len(),
            string_views(add@) == add0 + string_views(paths@.take(i as int)),
            string_views(commit@) == commit0 + string_views(paths@.take(i as int)),
        decreases paths@.len() - i,
    {
        let ghost a0 = add@;
        let ghost c0 = commit@;
        add.push(paths[i].clone());
        commit.push(paths[i].clone());
        assert(string_views(add@) =~= string_views(a0).push(paths@[i as int]@));
        assert(string_views(commit@) =~= string_views(c0).push(paths@[i as int]@));
        assert(string_views(paths@.take(i + 1)) =~= string_views(paths@.take(i as int)).push(paths@[i as int]@));
        assert(string_views(add@) =~= add0 + string_views(paths@.take(i + 1)));
        assert(string_views(commit@) =~= commit0 + string_views(paths@.take(i + 1)));
        i = i + 1;
    }
    assert(paths@.take(i as int) =~= paths@);
    assert(add0 =~= seq!["add"@, "--"@]);
    Ok((add, commit))
}

/// Arguments to publish `branch` to `origin`; a detached HEAD is refused.
pub fn publish_args(branch: &str) -> (r: Result<Vec<String>, &'static str>)
    ensures
        (crate::text::trim_spec(branch@).len() == 0 || branch@ == "(no branch)"@ || branch@ == "HEAD"@) ==> (r matches Err(
            m,
        ) && m@ == "cannot publish detached HEAD"@),
        !(crate::text::trim_spec(branch@).len() == 0 || branch@ == "(no branch)"@ || branch@ == "HEAD"@) ==> (r matches Ok(
            v,
        ) && string_views(v@) == seq!["push"@, "-u"@, "origin"@, branch@]),
{
    let cs = crate::text::str_chars(branch);
    if crate::text::trim_chars(cs.as_slice()).len() == 0 || str_eq(branch, "(no branch)") || str_eq(branch, "HEAD") {
        return Err("cannot publish detached HEAD");
    }
    let mut v: Vec<String> = Vec::new();
    v.push(owned("push"));
    v.push(owned("-u"));
    v.push(owned("origin"));
    v.push(owned(branch));
    assert(string_views(v@) =~= seq!["push"@, "-u"@, "origin"@, branch@]);
    Ok(v)
}

/// Remote name for a new GitHub repository: `origin` when free, else
/// `github` when free.
pub fn github_remote_choice(has_origin: bool, has_github: bool) -> (r: Result<&'static str, &'static str>)
    ensures
        !has_origin ==> (r matches Ok(n) && n@ == "origin"@),
        has_origin && !has_github ==> (r matches Ok(n) && n@ == "github"@),
        has_origin && has_github ==> (r matches Err(m) && m@
            == "cannot add GitHub remote: both 'origin' and 'github' already exist"@),
{
    if !has_origin {
        Ok("origin")
    } else if !has_github {
        Ok("github")
    } else {
        Err("cannot add GitHub remote: both 'origin' and 'github' already exist")
    }
}

/// Position of the first line break at or after `i`, or the length.
pub open spec fn line_end(s: Seq<char>, i: int) -> int
    decreases s.len() - i,
{
    if i >= s.len() || i < 0 {
        s.len() as int
    } else if s[i] == '\n' {
        i
    } else {
        line_end(s, i + 1)
    }
}

pub proof fn lemma_line_end_bounds(s: Seq<char>, i: int)
    requires
        0 <= i <= s.len(),
    ensures
        i <= line_end(s, i) <= s.len(),
        line_end(s, i) < s.len() ==> s[line_end(s, i)] == '\n',
        forall|k: int| i <= k < line_end(s, i) ==> s[k] != '\n',
    decreases s.len() - i,
{
    if i < s.len() && s[i] != '\n' {
        lemma_line_end_bounds(s, i + 1);
    }
}

/// The first line at or after position `i` that is not blank, trimmed.
pub open spec fn first_text_line(s: Seq<char>, i: int) -> Option<Seq<char>>
    decreases s.len() - i,
{
    if i < 0 || i >= s.len() {
        None
    } else {
        let j = line_end(s, i);
        proof {
            lemma_line_end_bounds(s, i);
        }
        let line = crate::text::trim_spec(s.subrange(i, j));
        if line.len() > 0 {
            Some(line)
        } else if j < s.len() {
            first_text_line(s, j + 1)
        } else {
            None
        }
    }
}

/// The first non-blank line of `text`, trimmed.
pub fn first_line_of(text: &str) -> (r: Option<String>)
    ensures
        match r {
            Some(l) => first_text_line(text@, 0) == Some(l@),
            None => first_text_line(text@, 0) is None,
        },
{
    let cs = crate::text::str_chars(text);
    let n = cs.len();
    let mut i: usize = 0;
    while i < n
        invariant
            cs@ == text@,
            n == cs@.len(),
            i <= n,
            first_text_line(cs@, 0) == first_text_line(cs@, i as int),
        decreases n - i,
    {
        let mut j = i;
        while j < n && cs[j] != '\n'
            invariant
                i <= j <= n,
                n == cs@.len(),
                line_end(cs@, i as int) == line_end(cs@, j as int),
            decreases n - j,
        {
            j = j + 1;
        }
        let seg = crate::text::sub_chars(cs.as_slice(), i, j);
        let t = crate::text::trim_chars(seg.as_slice());
        if t.len() > 0 {
            return Some(crate::text::chars_to_string(t.as_slice()));
        }
        if j >= n {
            return None;
        }
        i = j + 1;
    }
    None
}

/// What a finished git command `command` gives: on success its trimmed
/// output (its trimmed error output when the output is empty); on failure
/// `<command> failed: ` and the first non-blank line of its error output,
/// else of its output (`unknown git error` when there is none), with
/// advice added.
pub fn command_result(command: &str, success: bool, stdout: &str, stderr: &str) -> (r: Result<String, String>)
    ensures
        success ==> (r matches Ok(t) && t@ == (if crate::text::trim_spec(stdout@).len() == 0 {
            crate::text::trim_spec(stderr@)
        } else {
            crate::text::trim_spec(stdout@)
        })),
        !success ==> (r matches Err(m) && m@ == command@ + " failed: "@ + crate::helpers::explain_spec(
            match first_text_line(stderr@, 0) {
                Some(l) => l,
                None => match first_text_line(stdout@, 0) {
                    Some(l) => l,
                    None => "unknown git error"@,
                },
            },
        )),
{
    if success {
        let out = crate::text::trim_chars(crate::text::str_chars(stdout).as_slice());
        if out.len() == 0 {
            let err = crate::text::trim_chars(crate::text::str_chars(stderr).as_slice());
            return Ok(crate::text::chars_to_string(err.as_slice()));
        }
        return Ok(crate::text::chars_to_string(out.as_slice()));
    }
    let line = match first_line_of(stderr) {
        Some(l) => l,
        None => match first_line_of(stdout) {
            Some(l) => l,
            None => owned("unknown git error"),
        },
    };
    let explained = crate::helpers::explain_git_failure(line.as_str());
    Err(concat3(command, " failed: ", explained.as_str()))
}

/// A confirmed commit: the git commands to run, in order, and the texts
/// shown while it runs and after it succeeded.
pub struct CommitRun {
    pub commands: Vec<Vec<String>>,
    pub progress: String,
    pub success: String,
}

/// Views of a list of git commands.
pub open spec fn commands_view(v: Seq<Vec<String>>) -> Seq<Seq<Seq<char>>> {
    v.map_values(|c: Vec<String>| string_views(c@))
}

/// The commands of a commit with `message`: with no marked paths, stage
/// everything and commit; otherwise stage the marked paths and commit only
/// them.
pub open spec fn commit_commands_spec(message: Seq<char>, skip_hooks: bool, paths: Seq<Seq<char>>) -> Seq<
    Seq<Seq<char>>,
> {
    if paths.len() == 0 {
        seq![seq!["add"@, "."@], commit_all_spec(message, skip_hooks)]
    } else {
        seq![seq!["add"@, "--"@] + paths, commit_all_spec(message, skip_hooks) + seq!["--"@] + paths]
    }
}

/// Arguments to commit with `message`.
fn commit_args(message: &String, skip_hooks: bool) -> (r: Vec<String>)
    ensures
        string_views(r@) == commit_all_spec(message@, skip_hooks),
{
    let mut args: Vec<String> = Vec::new();
    args.push(owned("commit"));
    if skip_hooks {
        args.push(owned("--no-verify"));
    }
    args.push(owned("-m"));
    args.push(message.clone());
    assert(string_views(args@) =~= commit_all_spec(message@, skip_hooks));
    args
}

/// `v` followed by `paths`.
fn append_paths(v: &mut Vec<String>, paths: &Vec<String>)
    ensures
        string_views(final(v)@) == string_views(old(v)@) + string_views(paths@),
{
    let ghost start = string_views(v@);
    let mut i: usize = 0;
    while i < paths.len()
        invariant
            i <= paths@.len(),
            string_views(v@) == start + string_views(paths@.take(i as int)),
        decreases paths@.len() - i,
    {
        let ghost before = v@;
        v.push(paths[i].clone());
        assert(paths@.take(i + 1) =~= paths@.take(i as int).push(paths@[i as int]));
        assert(string_views(paths@.take(i + 1)) =~= string_views(paths@.take(i as int)).push(paths@[i as int]@));
        assert(string_views(v@) =~= string_views(before).push(paths@[i as int]@));
        assert(string_views(v@) =~= start + string_views(paths@.take(i + 1)));
        i = i + 1;
    }
    assert(paths@.take(paths@.len() as int) =~= paths@);
}

/// Confirms the commit dialog for the repository shown as `repo_name`,
/// with `marked` the paths marked in it. A blank message is refused and the
/// dialog stays as it was; otherwise the dialog closes and the commit runs
/// with the message stripped of surrounding white space: the whole working
/// tree when nothing is marked, else only the marked paths.
pub fn confirm_commit(input: &mut CommitInput, marked: Vec<String>, skip_hooks: bool, repo_name: &str) -> (r: Result<
    CommitRun,
    &'static str,
>)
    ensures
        crate::text::trim_spec(old(input).text()).len() == 0 <==> r is Err,
        r matches Err(e) ==> e@ == "Commit message is empty"@ && *final(input) == *old(input),
        r matches Ok(run) ==> {
            &&& commands_view(run.commands@) == commit_commands_spec(
                crate::text::trim_spec(old(input).text()),
                skip_hooks,
                string_views(marked@),
            )
            &&& (marked@.len() == 0 ==> run.progress@ == "Committing "@ + repo_name@ + "..."@ && run.success@
                == "Committed "@ + repo_name@)
            &&& (marked@.len() > 0 ==> run.progress@ == "Committing "@ + crate::text::decimal(marked@.len()) + " file(s) in "@
                + repo_name@ + "..."@ && run.success@ == "Committed "@ + crate::text::decimal(marked@.len()) + " file(s) in "@
                + repo_name@)
            &&& !final(input).shown()
            &&& final(input).repo() is None
            &&& final(input).name().len() == 0
            &&& final(input).text().len() == 0
            &&& final(input).marked() == old(input).marked()
        },
{
    let message = match check_commit_message(input.message()) {
        Ok(m) => m,
        Err(e) => {
            return Err(e);
        },
    };
    input.close();
    let (progress, success) = commit_texts(repo_name, marked.len());
    let mut commands: Vec<Vec<String>> = Vec::new();
    let ghost paths = string_views(marked@);
    if marked.len() == 0 {
        let mut add: Vec<String> = Vec::new();
        add.push(owned("add"));
        add.push(owned("."));
        assert(string_views(add@) =~= seq!["add"@, "."@]);
        commands.push(add);
        commands.push(commit_args(&message, skip_hooks));
        assert(commands_view(commands@) =~= commit_commands_spec(message@, skip_hooks, paths));
    } else {
        let mut add: Vec<String> = Vec::new();
        add.push(owned("add"));
        add.push(owned("--"));
        assert(string_views(add@) =~= seq!["add"@, "--"@]);
        append_paths(&mut add, &marked);
        let mut commit = commit_args(&message, skip_hooks);
        let ghost c0 = commit@;
        commit.push(owned("--"));
        assert(string_views(commit@) =~= string_views(c0).push("--"@));
        append_paths(&mut commit, &marked);
        let ghost commit_v = string_views(commit@);
        assert(commit_v =~= commit_all_spec(message@, skip_hooks) + seq!["--"@] + paths);
        commands.push(add);
        commands.push(commit);
        assert(commands_view(commands@) =~= commit_commands_spec(message@, skip_hooks, paths));
    }
    assert(commands_view(commands@) =~= commit_commands_spec(message@, skip_hooks, paths));
    Ok(CommitRun { commands, progress, success })
}

/// Removes repository `id` from the panel: its status bookkeeping is
/// forgotten, the configuration unpins it and excludes its name, its row
/// goes, and the selection moves to the repository now at its place (or
/// the last one), or is cleared when none is left. Answers the repository
/// selected afterwards (`Some(None)` for none), or `None` when `id` is not
/// listed, in which case nothing changes.
pub fn remove_repo_state(tracker: &mut StatusTracker, config: &mut Config, list: &mut RepoList, id: &RepoId) -> (r: Option<
    Option<usize>,
>)
    ensures
        (forall|j: int| 0 <= j < old(list).repos@.len() ==> #[trigger] old(list).repos@[j].path@ != id.0@) <==> r is None,
        r is None ==> *final(tracker) == *old(tracker) && *final(config) == *old(config) && *final(list) == *old(list),
        r is Some ==> exists|i: int|
            {
                &&& 0 <= i < old(list).repos@.len()
                &&& #[trigger] old(list).repos@[i].path@ == id.0@
                &&& forall|j: int| 0 <= j < i ==> #[trigger] old(list).repos@[j].path@ != id.0@
                &&& final(list).repos@ == old(list).repos@.remove(i)
                &&& string_views(final(list).expanded()) == string_views(old(list).expanded()).filter(
                    |p: Seq<char>| p != old(list).repos@[i].path@,
                )
                &&& string_views(final(config).pinned_repos@) == string_views(old(config).pinned_repos@).filter(
                    crate::file_list::other_than(id.0@),
                )
                &&& string_views(final(config).excluded_repos@) == if string_views(old(config).excluded_repos@).contains(
                    old(list).repos@[i].name@,
                ) {
                    string_views(old(config).excluded_repos@)
                } else {
                    string_views(old(config).excluded_repos@).push(old(list).repos@[i].name@)
                }
                &&& r == Some(
                    if final(list).repos@.len() == 0 {
                        None
                    } else if i < final(list).repos@.len() {
                        Some(i as usize)
                    } else {
                        Some((final(list).repos@.len() - 1) as usize)
                    },
                )
            },
        r is Some ==> *final(config) == (Config {
            pinned_repos: final(config).pinned_repos,
            excluded_repos: final(config).excluded_repos,
            ..*old(config)
        }),
        r is Some ==> string_views(final(tracker).pending@) == string_views(old(tracker).pending@).filter(
            crate::file_list::other_than(id.0@),
        ) && string_views(final(tracker).dirty@) == string_views(old(tracker).dirty@).filter(
            crate::file_list::other_than(id.0@),
        ) && lookup(final(tracker).graph_keys@, id.0@) is None && lookup(final(tracker).remote_keys@, id.0@) is None
            && (forall|o: Seq<char>| o != id.0@ ==> lookup(final(tracker).graph_keys@, o) == lookup(old(tracker).graph_keys@, o))
            && (forall|o: Seq<char>| o != id.0@ ==> lookup(final(tracker).remote_keys@, o) == lookup(old(tracker).remote_keys@, o))
            && final(tracker).local_poll_tick == old(tracker).local_poll_tick,
        r == Some(None::<usize>) ==> final(list).selected is None,
        r matches Some(Some(n)) ==> {
            let rows = final(list).rows();
            if exists|di: int| 0 <= di < rows.len() && rows[di] == DisplayRow::Repo(n) {
                &&& final(list).selected is Some
                &&& rows[final(list).selected->0 as int] == DisplayRow::Repo(n)
                &&& forall|di: int| 0 <= di < final(list).selected->0 ==> rows[di] != DisplayRow::Repo(n)
            } else {
                final(list).selected == old(list).selected
            }
        },
        final(list).format() == old(list).format(),
{
    let idx = match list.resolve_index(id) {
        Some(i) => i,
        None => {
            return None;
        },
    };
    tracker.forget(id);
    let path = list.repos[idx].path.clone();
    let name = list.repos[idx].name.clone();
    config.forget_repo(path.as_str(), name);
    let _ = list.remove_repo(idx);
    let next = index_after_removal(idx, list.repos.len());
    match next {
        None => {
            list.selected = None;
        },
        Some(n) => {
            list.select_repo_row(n);
        },
    }
    proof {
        assert(old(list).repos@[idx as int].path@ == id.0@);
    }
    Some(next)
}

} // verus!
