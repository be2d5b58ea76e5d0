//! Working-tree status of a repository: file states, submodule states and
//! the summary shown for each repository.
use vstd::prelude::*;
use crate::text::{str_chars, str_eq, string_views};
use crate::sort::{stable_order, stable_order_spec};

verus! {

/// State of a changed file.
#[derive(Clone, Copy, Debug, PartialEq, Eq, Structural)]
pub enum FileStatus {
    Modified,
    Added,
    Deleted,
    Renamed,
    Untracked,
    Conflicted,
}

/// State of a submodule whose working tree differs from its recorded commit.
#[derive(Clone, Copy, Debug, PartialEq, Eq, Structural)]
pub enum SubmoduleState {
    Modified,
    Uninitialized,
    Dirty,
}

/// How much untracked-file discovery a status scan does.
#[derive(Clone, Copy, Debug, PartialEq, Eq, Structural)]
pub enum UntrackedMode {
    /// Untracked files, recursing into untracked directories.
    All,
    /// Untracked files without expanding untracked directories.
    Normal,
    /// No untracked files (the configuration spells it `none`).
    Off,
}

impl Default for UntrackedMode {
    fn default() -> (r: Self)
        ensures
            r == UntrackedMode::All,
    {
        UntrackedMode::All
    }
}

/// Status bits of one path as reported by the repository.
#[derive(Clone, Copy, Debug, PartialEq, Eq, Structural)]
pub struct StatusFlags {
    pub conflicted: bool,
    pub index_new: bool,
    pub wt_new: bool,
    pub index_deleted: bool,
    pub wt_deleted: bool,
    pub index_renamed: bool,
    pub wt_renamed: bool,
    pub index_modified: bool,
    pub wt_modified: bool,
}

/// Status bits of a submodule's working directory.
#[derive(Clone, Copy, Debug, PartialEq, Eq, Structural)]
pub struct SubmoduleFlags {
    pub wd_uninitialized: bool,
    pub wd_wd_modified: bool,
    pub wd_untracked: bool,
    pub wd_modified: bool,
    pub wd_index_modified: bool,
}

/// One-letter label of each file state.
pub open spec fn status_label(s: FileStatus) -> Seq<char> {
    match s {
        FileStatus::Modified => seq!['M'],
        FileStatus::Added => seq!['A'],
        FileStatus::Deleted => seq!['D'],
        FileStatus::Renamed => seq!['R'],
        FileStatus::Untracked => seq!['?'],
        FileStatus::Conflicted => seq!['C'],
    }
}

/// File state for a set of status bits, by priority: conflicts, new files
/// (untracked when only the working tree has them), deletions, renames,
/// modifications; `None` for an unchanged path.
pub open spec fn file_status_spec(f: StatusFlags) -> Option<FileStatus> {
    if f.conflicted {
        Some(FileStatus::Conflicted)
    } else if f.index_new || f.wt_new {
        if f.wt_new && !f.index_new { Some(FileStatus::Untracked) } else { Some(FileStatus::Added) }
    } else if f.index_deleted || f.wt_deleted {
        Some(FileStatus::Deleted)
    } else if f.index_renamed || f.wt_renamed {
        Some(FileStatus::Renamed)
    } else if f.index_modified || f.wt_modified {
        Some(FileStatus::Modified)
    } else {
        None
    }
}

/// Submodule state for a set of submodule bits, by priority: uninitialized,
/// dirty working directory (modified or untracked files), moved pointer or
/// dirty index; `None` for a clean submodule.
pub open spec fn submodule_state_spec(f: SubmoduleFlags) -> Option<SubmoduleState> {
    if f.wd_uninitialized {
        Some(SubmoduleState::Uninitialized)
    } else if f.wd_wd_modified || f.wd_untracked {
        Some(SubmoduleState::Dirty)
    } else if f.wd_modified || f.wd_index_modified {
        Some(SubmoduleState::Modified)
    } else {
        None
    }
}

impl FileStatus {
    /// File state for the given status bits.
    pub fn from_git_status(flags: StatusFlags) -> (r: Option<FileStatus>)
        ensures
            r == file_status_spec(flags),
    {
        if flags.conflicted {
            Some(FileStatus::Conflicted)
        } else if flags.index_new || flags.wt_new {
            if flags.wt_new && !flags.index_new {
                Some(FileStatus::Untracked)
            } else {
                Some(FileStatus::Added)
            }
        } else if flags.index_deleted || flags.wt_deleted {
            Some(FileStatus::Deleted)
        } else if flags.index_renamed || flags.wt_renamed {
            Some(FileStatus::Renamed)
        } else if flags.index_modified || flags.wt_modified {
            Some(FileStatus::Modified)
        } else {
            None
        }
    }

    /// One-letter label shown in file lists.
    pub fn label(&self) -> (r: &'static str)
        ensures
            r@ == status_label(*self),
    {
        match self {
            FileStatus::Modified => {
                proof {
                    reveal_strlit("M");
                }
                "M"
            },
            FileStatus::Added => {
                proof {
                    reveal_strlit("A");
                }
                "A"
            },
            FileStatus::Deleted => {
                proof {
                    reveal_strlit("D");
                }
                "D"
            },
            FileStatus::Renamed => {
                proof {
                    reveal_strlit("R");
                }
                "R"
            },
            FileStatus::Untracked => {
                proof {
                    reveal_strlit("?");
                }
                "?"
            },
            FileStatus::Conflicted => {
                proof {
                    reveal_strlit("C");
                }
                "C"
            },
        }
    }
}

impl SubmoduleState {
    /// Submodule state for the given submodule bits.
    pub fn from_git_status(flags: SubmoduleFlags) -> (r: Option<SubmoduleState>)
        ensures
            r == submodule_state_spec(flags),
    {
        if flags.wd_uninitialized {
            Some(SubmoduleState::Uninitialized)
        } else if flags.wd_wd_modified || flags.wd_untracked {
            Some(SubmoduleState::Dirty)
        } else if flags.wd_modified || flags.wd_index_modified {
            Some(SubmoduleState::Modified)
        } else {
            None
        }
    }
}

/// A changed path of the working tree.
#[derive(Debug)]
pub struct FileEntry {
    pub path: String,
    pub status: FileStatus,
    pub is_submodule: bool,
    pub submodule_state: Option<SubmoduleState>,
}

impl Clone for FileEntry {
    fn clone(&self) -> (r: Self)
        ensures
            r == *self,
    {
        FileEntry {
            path: self.path.clone(),
            status: self.status,
            is_submodule: self.is_submodule,
            submodule_state: self.submodule_state,
        }
    }
}

/// A linked worktree of a repository.
#[derive(Debug)]
pub struct WorktreeEntry {
    pub path: String,
    pub branch: String,
}

/// A submodule with local changes.
#[derive(Debug)]
pub struct SubmoduleInfo {
    pub path: String,
    pub state: SubmoduleState,
    pub head_oid: Option<String>,
    pub workdir_oid: Option<String>,
}

/// Summary of a repository's state.
#[derive(Debug)]
pub struct RepoStatus {
    pub branch: String,
    pub files: Vec<FileEntry>,
    pub ahead: usize,
    pub behind: usize,
    pub has_upstream: bool,
    pub is_dirty: bool,
    /// Linked worktrees (the main working tree excluded).
    pub worktree_info: Vec<WorktreeEntry>,
    /// Whether the repository uses submodules.
    pub has_submodules: bool,
    pub submodules: Vec<SubmoduleInfo>,
    pub has_dirty_submodules: bool,
    /// Whether the last fetch failed.
    pub fetch_failed: bool,
    /// Whether a remote points at a GitHub host.
    pub has_github_remote: bool,
    /// Browser URL of the first GitHub remote.
    pub github_url: Option<String>,
    /// Whether the repository has an `origin` remote.
    pub has_origin_remote: bool,
    /// Snapshot of HEAD, branch and tag refs and worktree heads.
    pub graph_key: String,
    /// Snapshot of remote refs.
    pub remote_key: String,
}

impl RepoStatus {
    /// Assembles the summary of a repository: it is dirty when a regular
    /// file changed or a submodule has changes; it has dirty submodules when
    /// any submodule was listed; it has a GitHub remote when a GitHub URL
    /// was found.
    pub fn from_parts(
        branch: String,
        files: Vec<FileEntry>,
        ahead: usize,
        behind: usize,
        has_upstream: bool,
        has_regular_changes: bool,
        worktree_info: Vec<WorktreeEntry>,
        has_submodules: bool,
        submodules: Vec<SubmoduleInfo>,
        fetch_failed: bool,
        github_url: Option<String>,
        has_origin_remote: bool,
        graph_key: String,
        remote_key: String,
    ) -> (r: RepoStatus)
        ensures
            r.has_dirty_submodules == (submodules@.len() > 0),
            r.is_dirty == (has_regular_changes || submodules@.len() > 0),
            r.has_github_remote == (github_url is Some),
            r.branch == branch,
            r.files == files,
            r.ahead == ahead,
            r.behind == behind,
            r.has_upstream == has_upstream,
            r.worktree_info == worktree_info,
            r.has_submodules == has_submodules,
            r.submodules == submodules,
            r.fetch_failed == fetch_failed,
            r.github_url == github_url,
            r.has_origin_remote == has_origin_remote,
            r.graph_key == graph_key,
            r.remote_key == remote_key,
    {
        let has_dirty_submodules = submodules.len() > 0;
        let has_github_remote = github_url.is_some();
        RepoStatus {
            branch,
            files,
            ahead,
            behind,
            has_upstream,
            is_dirty: has_regular_changes || has_dirty_submodules,
            worktree_info,
            has_submodules,
            submodules,
            has_dirty_submodules,
            fetch_failed,
            has_github_remote,
            github_url,
            has_origin_remote,
            graph_key,
            remote_key,
        }
    }
}

/// Index of the first entry for `path`, or `files.len()`.
pub open spec fn find_file(files: Seq<FileEntry>, path: Seq<char>, i: int) -> int
    decreases files.len() - i,
{
    if i < 0 || i >= files.len() {
        files.len() as int
    } else if files[i].path@ == path {
        i
    } else {
        find_file(files, path, i + 1)
    }
}

/// Marks the entry for a submodule's path as a submodule in `state`, adding
/// a modified entry when the path has none.
pub fn mark_submodule_file(files: &mut Vec<FileEntry>, sub_path: String, state: SubmoduleState)
    ensures
        ({
            let k = find_file(old(files)@, sub_path@, 0);
            if k < old(files)@.len() {
                &&& final(files)@.len() == old(files)@.len()
                &&& final(files)@[k].path == old(files)@[k].path
                &&& final(files)@[k].status == old(files)@[k].status
                &&& final(files)@[k].is_submodule
                &&& final(files)@[k].submodule_state == Some(state)
                &&& forall|j: int| 0 <= j < old(files)@.len() && j != k ==> final(files)@[j] == old(files)@[j]
            } else {
                &&& final(files)@.len() == old(files)@.len() + 1
                &&& final(files)@.take(old(files)@.len() as int) == old(files)@
                &&& final(files)@.last().path == sub_path
                &&& final(files)@.last().status == FileStatus::Modified
                &&& final(files)@.last().is_submodule
                &&& final(files)@.last().submodule_state == Some(state)
            }
        }),
{
    let mut i: usize = 0;
    while i < files.len()
        invariant
            i <= files@.len(),
            files@ == old(files)@,
            find_file(files@, sub_path@, 0) == find_file(files@, sub_path@, i as int),
        decreases files@.len() - i,
    {
        if str_eq(files[i].path.as_str(), sub_path.as_str()) {
            let old_entry = files[i].clone();
            let entry = FileEntry {
                path: old_entry.path,
                status: old_entry.status,
                is_submodule: true,
                submodule_state: Some(state),
            };
            files.set(i, entry);
            return;
        }
        i = i + 1;
    }
    files.push(
        FileEntry { path: sub_path, status: FileStatus::Modified, is_submodule: true, submodule_state: Some(state) },
    );
    assert(files@.take(old(files)@.len() as int) =~= old(files)@);
}

/// Texts joined with `|` between them.
pub open spec fn join_bar(parts: Seq<Seq<char>>) -> Seq<char>
    decreases parts.len(),
{
    if parts.len() == 0 {
        Seq::empty()
    } else if parts.len() == 1 {
        parts[0]
    } else {
        join_bar(parts.drop_last()) + seq!['|'] + parts.last()
    }
}

/// A snapshot key: the parts in ascending order, joined with `|`.
pub fn sorted_cache_key(parts: Vec<String>) -> (r: String)
    ensures
        exists|p: Seq<usize>|
            #[trigger] stable_order_spec(string_views(parts@), p) && r@ == join_bar(
                p.map_values(|i: usize| parts@[i as int]@),
            ),
{
    let mut keys: Vec<Vec<char>> = Vec::new();
    let mut i: usize = 0;
    while i < parts.len()
        invariant
            i <= parts@.len(),
            keys@.len() == i,
            forall|j: int| 0 <= j < i ==> (#[trigger] keys@[j])@ == parts@[j]@,
        decreases parts@.len() - i,
    {
        keys.push(str_chars(parts[i].as_str()));
        i = i + 1;
    }
    assert(keys@.map_values(|k: Vec<char>| k@) =~= string_views(parts@));
    let p = stable_order(&keys);
    let ghost sorted = p@.map_values(|i: usize| parts@[i as int]@);
    let mut out = String::new();
    let mut k: usize = 0;
    while k < p.len()
        invariant
            k <= p@.len(),
            p@.len() == parts@.len(),
            forall|j: int| 0 <= j < p@.len() ==> (#[trigger] p@[j]) < parts@.len(),
            sorted == p@.map_values(|i: usize| parts@[i as int]@),
            out@ == join_bar(sorted.take(k as int)),
        decreases p@.len() - k,
    {
        if k > 0 {
            crate::text::push_char(&mut out, '|');
        }
        crate::text::push_str(&mut out, parts[p[k]].as_str());
        proof {
            assert(sorted.take(k + 1).drop_last() =~= sorted.take(k as int));
            if k == 0 {
                assert(sorted.take(1) =~= seq![sorted[0]]);
            }
        }
        k = k + 1;
    }
    assert(sorted.take(k as int) =~= sorted);
    out
}

} // verus!
