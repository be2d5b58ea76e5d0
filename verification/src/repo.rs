//! The repository list: entries, their display names, the rows shown
//! (repositories and expanded worktrees) and the selection.
use vstd::prelude::*;
use crate::config::RepoNameFormat;
use crate::paths::{file_name, file_name_spec, parent_name, parent_name_spec};
use crate::remote::{github_repo_name_from_web_url, repo_name_from_web_url};
use crate::status::{RepoStatus, WorktreeEntry};
use crate::text::{chars_to_string, lowercase, owned, push_str, str_chars, str_eq, string_views, to_lowercase};
use crate::sort::{stable_order, stable_order_spec};
use crate::ui::{clicked_list_index, clicked_row, Area, KeyCode, KeyEvent, MouseInput};

verus! {

/// Stable identity of a repository: its path.
#[derive(Debug)]
pub struct RepoId(pub String);

impl Clone for RepoId {
    fn clone(&self) -> (r: Self)
        ensures
            r == *self,
    {
        RepoId(self.0.clone())
    }
}

impl PartialEq for RepoId {
    fn eq(&self, other: &Self) -> (r: bool) {
        str_eq(self.0.as_str(), other.0.as_str())
    }
}

impl vstd::std_specs::cmp::PartialEqSpecImpl for RepoId {
    open spec fn obeys_eq_spec() -> bool {
        true
    }

    open spec fn eq_spec(&self, other: &Self) -> bool {
        self.0@ == other.0@
    }
}

impl Eq for RepoId {
}

impl RepoId {
    /// The path as text.
    pub fn as_str(&self) -> (r: &str)
        ensures
            r@ == self.0@,
    {
        self.0.as_str()
    }
}

/// A repository in the list.
#[derive(Debug)]
pub struct RepoEntry {
    pub path: String,
    pub name: String,
    pub status: Option<RepoStatus>,
    /// Whether a push, pull or rebase is running.
    pub git_op: bool,
}

/// Name of the repository's folder, else its stored name.
pub open spec fn folder_name_spec(e: RepoEntry) -> Seq<char> {
    match file_name_spec(e.path@) {
        Some(n) => n,
        None => e.name@,
    }
}

/// Name of the GitHub repository the entry's remote points at.
pub open spec fn remote_repo_name_spec(e: RepoEntry) -> Option<Seq<char>> {
    match e.status {
        Some(st) => match st.github_url {
            Some(u) => repo_name_from_web_url(u@),
            None => None,
        },
        None => None,
    }
}

/// `parent:folder` when the parent folder has a name, else `folder`.
pub open spec fn parent_folder_label_spec(e: RepoEntry, folder: Seq<char>) -> Seq<char> {
    match parent_name_spec(e.path@) {
        Some(p) => if p.len() > 0 { p + seq![':'] + folder } else { folder },
        None => folder,
    }
}

/// Name shown for a repository in the given format; `dup` tells that
/// another repository has the same folder name.
pub open spec fn display_name_spec(e: RepoEntry, format: RepoNameFormat, dup: bool) -> Seq<char> {
    let folder = folder_name_spec(e);
    match format {
        RepoNameFormat::FolderGithub => match remote_repo_name_spec(e) {
            Some(r) => folder + seq![':'] + r,
            None => if dup { parent_folder_label_spec(e, folder) } else { folder },
        },
        RepoNameFormat::Folder => folder,
        RepoNameFormat::ParentFolder => parent_folder_label_spec(e, folder),
        RepoNameFormat::Path => e.path@,
    }
}

impl RepoEntry {
    /// Identity of the repository: its path.
    pub fn id(&self) -> (r: RepoId)
        ensures
            r.0 == self.path,
    {
        RepoId(self.path.clone())
    }

    /// Name in the default format.
    pub fn display_name(&self) -> (r: String)
        ensures
            r@ == display_name_spec(*self, RepoNameFormat::FolderGithub, false),
    {
        self.display_name_for_format(RepoNameFormat::FolderGithub, false)
    }

    /// Name in `format`; with `duplicate_fallback` a local-only repository
    /// is told apart by its parent folder.
    pub fn display_name_for_format(&self, format: RepoNameFormat, duplicate_fallback: bool) -> (r: String)
        ensures
            r@ == display_name_spec(*self, format, duplicate_fallback),
    {
        let folder = self.folder_name();
        match format {
            RepoNameFormat::FolderGithub => match self.remote_repo_name() {
                Some(repo_name) => {
                    let mut s = folder;
                    push_str(&mut s, ":");
                    proof {
                        reveal_strlit(":");
                    }
                    push_str(&mut s, repo_name.as_str());
                    s
                },
                None => if duplicate_fallback {
                    self.parent_folder_label(folder)
                } else {
                    folder
                },
            },
            RepoNameFormat::Folder => folder,
            RepoNameFormat::ParentFolder => self.parent_folder_label(folder),
            RepoNameFormat::Path => self.path.clone(),
        }
    }

    /// `parent:folder`, or `folder` when the parent has no name.
    pub fn parent_folder_label(&self, folder: String) -> (r: String)
        ensures
            r@ == parent_folder_label_spec(*self, folder@),
    {
        match self.parent_folder_name() {
            Some(parent) => {
                let mut s = parent;
                push_str(&mut s, ":");
                proof {
                    reveal_strlit(":");
                }
                push_str(&mut s, folder.as_str());
                s
            },
            None => folder,
        }
    }

    /// Name of the repository's folder, else the stored name.
    pub fn folder_name(&self) -> (r: String)
        ensures
            r@ == folder_name_spec(*self),
    {
        match file_name(self.path.as_str()) {
            Some(n) => n,
            None => self.name.clone(),
        }
    }

    /// Name of the folder that contains the repository, when not empty.
    pub fn parent_folder_name(&self) -> (r: Option<String>)
        ensures
            match r {
                Some(p) => parent_name_spec(self.path@) == Some(p@) && p@.len() > 0,
                None => parent_name_spec(self.path@) is None || parent_name_spec(self.path@) == Some(
                    Seq::<char>::empty(),
                ),
            },
    {
        match parent_name(self.path.as_str()) {
            Some(p) => if p.as_str().unicode_len() > 0 {
                Some(p)
            } else {
                None
            },
            None => None,
        }
    }

    /// Name of the GitHub repository behind the entry's remote.
    pub fn remote_repo_name(&self) -> (r: Option<String>)
        ensures
            match r {
                Some(n) => remote_repo_name_spec(*self) == Some(n@),
                None => remote_repo_name_spec(*self) is None,
            },
    {
        match &self.status {
            Some(st) => match &st.github_url {
                Some(u) => github_repo_name_from_web_url(u.as_str()),
                None => None,
            },
            None => None,
        }
    }
}

/// A visual row of the list: a repository, or one of its worktrees.
#[derive(Clone, Copy, Debug, PartialEq, Eq, Structural)]
pub enum DisplayRow {
    Repo(usize),
    Worktree(usize, usize),
}

/// The repository list.
#[derive(Debug)]
pub struct RepoList {
    pub repos: Vec<RepoEntry>,
    /// Selected display row.
    pub selected: Option<usize>,
    pub focused: bool,
    /// Paths of the repositories whose worktrees are shown.
    pub expanded_repos: Vec<String>,
    pub repo_name_format: RepoNameFormat,
    /// Where the list was last drawn.
    pub render_area: Area,
    /// First row on screen (kept by the renderer).
    pub offset: usize,
}

/// Whether the repository at `path` is expanded.
pub open spec fn is_expanded(expanded: Seq<String>, path: Seq<char>) -> bool {
    string_views(expanded).contains(path)
}

/// `sel` is the first display row of repository `ri`.
pub open spec fn first_row_of(rows: Seq<DisplayRow>, ri: usize, sel: Option<usize>) -> bool {
    &&& sel is Some
    &&& sel->0 < rows.len()
    &&& rows[sel->0 as int] == DisplayRow::Repo(ri)
    &&& forall|di: int| 0 <= di < sel->0 ==> rows[di] != DisplayRow::Repo(ri)
}

/// Worktree rows shown under repository `i`.
pub open spec fn worktree_rows(repos: Seq<RepoEntry>, expanded: Seq<String>, i: int) -> Seq<DisplayRow> {
    match repos[i].status {
        Some(st) => if is_expanded(expanded, repos[i].path@) {
            Seq::new(st.worktree_info@.len(), |j: int| DisplayRow::Worktree(i as usize, j as usize))
        } else {
            Seq::empty()
        },
        None => Seq::empty(),
    }
}

/// Display rows of the first `n` repositories.
pub open spec fn rows_upto(repos: Seq<RepoEntry>, expanded: Seq<String>, n: int) -> Seq<DisplayRow>
    decreases n,
{
    if n <= 0 || n > repos.len() {
        Seq::empty()
    } else {
        rows_upto(repos, expanded, n - 1) + seq![DisplayRow::Repo((n - 1) as usize)] + worktree_rows(
            repos,
            expanded,
            n - 1,
        )
    }
}

/// Whether another repository has the same folder name as repository `i`.
pub open spec fn has_duplicate_spec(repos: Seq<RepoEntry>, i: int) -> bool {
    match file_name_spec(repos[i].path@) {
        Some(f) => exists|j: int| 0 <= j < repos.len() && j != i && file_name_spec(#[trigger] repos[j].path@) == Some(f),
        None => false,
    }
}

/// Entry for a repository path: named after its folder, else the whole path.
pub open spec fn new_entry_spec(path: Seq<char>, e: RepoEntry) -> bool {
    &&& e.path@ == path
    &&& e.name@ == match file_name_spec(path) {
        Some(n) => n,
        None => path,
    }
    &&& e.status is None
    &&& !e.git_op
}

impl RepoList {
    /// Display rows of the list.
    pub open spec fn rows(&self) -> Seq<DisplayRow> {
        rows_upto(self.repos@, self.expanded_repos@, self.repos@.len() as int)
    }

    /// Paths of the expanded repositories.
    pub open spec fn expanded(&self) -> Seq<String> {
        self.expanded_repos@
    }

    /// Name format of the list.
    pub open spec fn format(&self) -> RepoNameFormat {
        self.repo_name_format
    }

    /// A list of the repositories at `repo_paths`, none expanded, the first
    /// selected.
    pub fn new(repo_paths: Vec<String>, ignore_dirty_subs: bool, repo_name_format: RepoNameFormat) -> (r: RepoList)
        ensures
            r.repos@.len() == repo_paths@.len(),
            forall|i: int| 0 <= i < repo_paths@.len() ==> new_entry_spec(repo_paths@[i]@, #[trigger] r.repos@[i]),
            r.selected == (if repo_paths@.len() > 0 { Some(0usize) } else { None }),
            r.focused,
            r.expanded().len() == 0,
            r.format() == repo_name_format,
    {
        let mut repos: Vec<RepoEntry> = Vec::new();
        let mut i: usize = 0;
        while i < repo_paths.len()
            invariant
                i <= repo_paths@.len(),
                repos@.len() == i,
                forall|j: int| 0 <= j < i ==> new_entry_spec(repo_paths@[j]@, #[trigger] repos@[j]),
            decreases repo_paths@.len() - i,
        {
            let path = repo_paths[i].clone();
            let name = match file_name(path.as_str()) {
                Some(n) => n,
                None => path.clone(),
            };
            repos.push(RepoEntry { path, name, status: None, git_op: false });
            i = i + 1;
        }
        let selected = if repos.len() > 0 {
            Some(0)
        } else {
            None
        };
        RepoList {
            repos,
            selected,
            focused: true,
            expanded_repos: Vec::new(),
            repo_name_format,
            render_area: Area { x: 0, y: 0, width: 0, height: 0 },
            offset: 0,
        }
    }

    /// Worktree rows of repository `i`, in order.
    fn push_worktree_rows(&self, i: usize, rows: &mut Vec<DisplayRow>)
        requires
            i < self.repos@.len(),
        ensures
            final(rows)@ == old(rows)@ + worktree_rows(self.repos@, self.expanded_repos@, i as int),
    {
        let entry = &self.repos[i];
        let expanded = crate::text::contains_string(&self.expanded_repos, entry.path.as_str());
        match &entry.status {
            Some(st) => {
                if expanded {
                    let n = st.worktree_info.len();
                    let mut j: usize = 0;
                    while j < n
                        invariant
                            j <= n,
                            n == st.worktree_info@.len(),
                            rows@ == old(rows)@ + Seq::new(j as nat, |k: int| DisplayRow::Worktree(i, k as usize)),
                        decreases n - j,
                    {
                        rows.push(DisplayRow::Worktree(i, j));
                        j = j + 1;
                        assert(rows@ =~= old(rows)@ + Seq::new(j as nat, |k: int| DisplayRow::Worktree(i, k as usize)));
                    }
                } else {
                    assert(rows@ =~= old(rows)@ + Seq::<DisplayRow>::empty());
                }
            },
            None => {
                assert(rows@ =~= old(rows)@ + Seq::<DisplayRow>::empty());
            },
        }
    }

    /// The rows shown: each repository followed by its worktrees when it is
    /// expanded.
    pub fn display_rows(&self) -> (r: Vec<DisplayRow>)
        ensures
            r@ == self.rows(),
    {
        let mut rows: Vec<DisplayRow> = Vec::new();
        let mut i: usize = 0;
        while i < self.repos.len()
            invariant
                i <= self.repos@.len(),
                rows@ == rows_upto(self.repos@, self.expanded_repos@, i as int),
            decreases self.repos@.len() - i,
        {
            rows.push(DisplayRow::Repo(i));
            self.push_worktree_rows(i, &mut rows);
            i = i + 1;
        }
        rows
    }

    /// Whether another repository has the same folder name as `repo_idx`.
    pub fn has_duplicate_folder_name(&self, repo_idx: usize) -> (r: bool)
        requires
            repo_idx < self.repos@.len(),
        ensures
            r == has_duplicate_spec(self.repos@, repo_idx as int),
    {
        match file_name(self.repos[repo_idx].path.as_str()) {
            Some(f) => {
                let mut j: usize = 0;
                while j < self.repos.len()
                    invariant
                        j <= self.repos@.len(),
                        repo_idx < self.repos@.len(),
                        file_name_spec(self.repos@[repo_idx as int].path@) == Some(f@),
                        forall|k: int|
                            0 <= k < j && k != repo_idx ==> file_name_spec(#[trigger] self.repos@[k].path@) != Some(f@),
                    decreases self.repos@.len() - j,
                {
                    if j != repo_idx {
                        match file_name(self.repos[j].path.as_str()) {
                            Some(g) => {
                                if str_eq(f.as_str(), g.as_str()) {
                                    return true;
                                }
                            },
                            None => {},
                        }
                    }
                    j = j + 1;
                }
                false
            },
            None => false,
        }
    }

    /// Name of repository `repo_idx` in the list's format, told apart by its
    /// parent folder when another repository has the same folder name.
    pub fn display_name_for_index(&self, repo_idx: usize) -> (r: Option<String>)
        ensures
            repo_idx < self.repos@.len() ==> r is Some && r->0@ == display_name_spec(
                self.repos@[repo_idx as int],
                self.format(),
                has_duplicate_spec(self.repos@, repo_idx as int),
            ),
            repo_idx >= self.repos@.len() ==> r is None,
    {
        if repo_idx >= self.repos.len() {
            return None;
        }
        let dup = self.has_duplicate_folder_name(repo_idx);
        Some(self.repos[repo_idx].display_name_for_format(self.repo_name_format, dup))
    }

    /// Adds a repository at the end.
    pub fn push_repo(&mut self, entry: RepoEntry)
        ensures
            final(self).repos@ == old(self).repos@.push(entry),
            final(self).selected == old(self).selected,
            final(self).expanded() == old(self).expanded(),
            final(self).format() == old(self).format(),
    {
        self.repos.push(entry);
    }

    /// Removes repository `index`, forgetting whether it was expanded.
    pub fn remove_repo(&mut self, index: usize) -> (r: Option<RepoEntry>)
        ensures
            index < old(self).repos@.len() ==> {
                &&& r == Some(old(self).repos@[index as int])
                &&& final(self).repos@ == old(self).repos@.remove(index as int)
                &&& string_views(final(self).expanded()) == string_views(old(self).expanded()).filter(
                    |p: Seq<char>| p != old(self).repos@[index as int].path@,
                )
            },
            index >= old(self).repos@.len() ==> r is None && final(self).repos@ == old(self).repos@
                && final(self).expanded() == old(self).expanded(),
            final(self).selected == old(self).selected,
            final(self).format() == old(self).format(),
    {
        if index >= self.repos.len() {
            return None;
        }
        let entry = self.repos.remove(index);
        let mut kept: Vec<String> = Vec::new();
        let mut i: usize = 0;
        let ghost pred = |p: Seq<char>| p != entry.path@;
        while i < self.expanded_repos.len()
            invariant
                i <= self.expanded_repos@.len(),
                self.expanded_repos@ == old(self).expanded_repos@,
                string_views(kept@) == string_views(self.expanded_repos@.take(i as int)).filter(pred),
                pred == (|p: Seq<char>| p != entry.path@),
            decreases self.expanded_repos@.len() - i,
        {
            let keep = !str_eq(self.expanded_repos[i].as_str(), entry.path.as_str());
            proof {
                let a = self.expanded_repos@.take(i as int);
                let x = self.expanded_repos@[i as int];
                assert(self.expanded_repos@.take(i + 1) =~= a.push(x));
                assert(string_views(a.push(x)) =~= string_views(a).push(x@));
                string_views(a).lemma_filter_push(x@, pred);
            }
            if keep {
                kept.push(self.expanded_repos[i].clone());
                assert(string_views(kept@) =~= string_views(self.expanded_repos@.take(i as int)).filter(pred).push(
                    self.expanded_repos@[i as int]@,
                ));
            }
            i = i + 1;
        }
        assert(self.expanded_repos@.take(i as int) =~= self.expanded_repos@);
        self.expanded_repos = kept;
        Some(entry)
    }

    /// Repository of the selected row (a worktree row counts as its
    /// repository).
    pub open spec fn selected_repo_index(&self) -> Option<usize> {
        match self.selected {
            Some(di) => if 0 <= di < self.rows().len() {
                match self.rows()[di as int] {
                    DisplayRow::Repo(i) => Some(i),
                    DisplayRow::Worktree(ri, _) => Some(ri),
                }
            } else {
                None
            },
            None => None,
        }
    }

    /// Worktree of the selected row, as `(repository, worktree)` positions,
    /// when a worktree row is selected.
    pub open spec fn selected_worktree_pos(&self) -> Option<(usize, usize)> {
        match self.selected {
            Some(di) => if 0 <= di < self.rows().len() {
                match self.rows()[di as int] {
                    DisplayRow::Repo(_) => None,
                    DisplayRow::Worktree(ri, wi) => Some((ri, wi)),
                }
            } else {
                None
            },
            None => None,
        }
    }

    /// Repository of the selected row (a worktree row counts as its
    /// repository).
    pub fn selected_index(&self) -> (r: Option<usize>)
        ensures
            r == self.selected_repo_index(),
    {
        match self.selected {
            Some(di) => {
                let rows = self.display_rows();
                if di < rows.len() {
                    match rows[di] {
                        DisplayRow::Repo(i) => Some(i),
                        DisplayRow::Worktree(ri, _) => Some(ri),
                    }
                } else {
                    None
                }
            },
            None => None,
        }
    }

    /// Entry of the selected row's repository.
    pub fn selected_repo(&self) -> (r: Option<&RepoEntry>)
        ensures
            match self.selected_repo_index() {
                Some(i) => if i < self.repos@.len() { r == Some(&self.repos@[i as int]) } else { r is None },
                None => r is None,
            },
    {
        match self.selected_index() {
            Some(i) => if i < self.repos.len() {
                Some(&self.repos[i])
            } else {
                None
            },
            None => None,
        }
    }

    /// When a worktree row is selected: the identity of its repository and
    /// the worktree.
    pub fn selected_worktree(&self) -> (r: Option<(RepoId, &WorktreeEntry)>)
        ensures
            match self.selected_worktree_pos() {
                Some((ri, wi)) => if ri < self.repos@.len() && self.repos@[ri as int].status is Some && wi
                    < self.repos@[ri as int].status->0.worktree_info@.len() {
                    r matches Some((id, w)) && id.0 == self.repos@[ri as int].path && *w
                        == self.repos@[ri as int].status->0.worktree_info@[wi as int]
                } else {
                    r is None
                },
                None => r is None,
            },
    {
        let di = match self.selected {
            Some(di) => di,
            None => return None,
        };
        let rows = self.display_rows();
        if di >= rows.len() {
            return None;
        }
        match rows[di] {
            DisplayRow::Repo(_) => None,
            DisplayRow::Worktree(ri, wi) => {
                if ri >= self.repos.len() {
                    return None;
                }
                let entry = &self.repos[ri];
                match &entry.status {
                    Some(st) => if wi < st.worktree_info.len() {
                        Some((RepoId(entry.path.clone()), &st.worktree_info[wi]))
                    } else {
                        None
                    },
                    None => None,
                }
            },
        }
    }

    /// Position of the repository with identity `id`.
    pub fn resolve_index(&self, id: &RepoId) -> (r: Option<usize>)
        ensures
            match r {
                Some(i) => i < self.repos@.len() && self.repos@[i as int].path@ == id.0@ && forall|j: int|
                    0 <= j < i ==> #[trigger] self.repos@[j].path@ != id.0@,
                None => forall|j: int| 0 <= j < self.repos@.len() ==> #[trigger] self.repos@[j].path@ != id.0@,
            },
    {
        let mut i: usize = 0;
        while i < self.repos.len()
            invariant
                i <= self.repos@.len(),
                forall|j: int| 0 <= j < i ==> #[trigger] self.repos@[j].path@ != id.0@,
            decreases self.repos@.len() - i,
        {
            if str_eq(self.repos[i].path.as_str(), id.0.as_str()) {
                return Some(i);
            }
            i = i + 1;
        }
        None
    }

    /// Selects the row of repository `repo_idx`, if it is shown.
    pub fn select_repo_row(&mut self, repo_idx: usize)
        ensures
            final(self).repos == old(self).repos,
            final(self).expanded() == old(self).expanded(),
            final(self).format() == old(self).format(),
            ({
                let rows = old(self).rows();
                if exists|di: int| 0 <= di < rows.len() && rows[di] == DisplayRow::Repo(repo_idx) {
                    &&& final(self).selected is Some
                    &&& rows[final(self).selected->0 as int] == DisplayRow::Repo(repo_idx)
                    &&& forall|di: int| 0 <= di < final(self).selected->0 ==> rows[di] != DisplayRow::Repo(repo_idx)
                } else {
                    final(self).selected == old(self).selected
                }
            }),
    {
        let rows = self.display_rows();
        let mut di: usize = 0;
        while di < rows.len()
            invariant
                di <= rows@.len(),
                rows@ == self.rows(),
                self.selected == old(self).selected,
                self.repos == old(self).repos,
                self.expanded_repos == old(self).expanded_repos,
                self.repo_name_format == old(self).repo_name_format,
                forall|k: int| 0 <= k < di ==> rows@[k] != DisplayRow::Repo(repo_idx),
            decreases rows@.len() - di,
        {
            if rows[di] == DisplayRow::Repo(repo_idx) {
                self.selected = Some(di);
                return;
            }
            di = di + 1;
        }
    }

    /// Moves the selection one row down, staying on the last row.
    pub fn select_next(&mut self)
        ensures
            final(self).repos == old(self).repos,
            final(self).expanded() == old(self).expanded(),
            final(self).selected == (if old(self).rows().len() == 0 {
                old(self).selected
            } else {
                match old(self).selected {
                    Some(i) => Some(
                        if i + 1 < old(self).rows().len() { (i + 1) as usize } else { (old(self).rows().len() - 1) as usize },
                    ),
                    None => Some(0usize),
                }
            }),
    {
        let n = self.display_rows().len();
        if n == 0 {
            return;
        }
        let i = match self.selected {
            Some(i) => if i < n - 1 {
                i + 1
            } else {
                n - 1
            },
            None => 0,
        };
        self.selected = Some(i);
    }

    /// Moves the selection one row up, staying on the first row.
    pub fn select_prev(&mut self)
        ensures
            final(self).repos == old(self).repos,
            final(self).expanded() == old(self).expanded(),
            final(self).selected == (if old(self).rows().len() == 0 {
                old(self).selected
            } else {
                match old(self).selected {
                    Some(i) => Some(if i > 0 { (i - 1) as usize } else { 0usize }),
                    None => Some(0usize),
                }
            }),
    {
        let n = self.display_rows().len();
        if n == 0 {
            return;
        }
        let i = match self.selected {
            Some(i) => if i > 0 {
                i - 1
            } else {
                0
            },
            None => 0,
        };
        self.selected = Some(i);
    }

    /// Marks repository `index` as running a git operation or not.
    pub fn set_git_op(&mut self, index: usize, busy: bool)
        ensures
            index < old(self).repos@.len() ==> final(self).repos@ == old(self).repos@.update(
                index as int,
                RepoEntry { git_op: busy, ..old(self).repos@[index as int] },
            ),
            index >= old(self).repos@.len() ==> final(self).repos == old(self).repos,
            final(self).selected == old(self).selected,
            final(self).expanded_repos == old(self).expanded_repos,
            final(self).repo_name_format == old(self).repo_name_format,
            final(self).focused == old(self).focused,
    {
        if index < self.repos.len() {
            let old_entry = self.repos.remove(index);
            let entry = RepoEntry { path: old_entry.path, name: old_entry.name, status: old_entry.status, git_op: busy };
            self.repos.insert(index, entry);
            assert(self.repos@ =~= old(self).repos@.update(index as int, RepoEntry { git_op: busy, ..old(self).repos@[index as int] }));
        }
    }

    /// Records the status of repository `index` and ends its git operation.
    pub fn update_status(&mut self, index: usize, repo_status: RepoStatus)
        ensures
            index < old(self).repos@.len() ==> {
                &&& final(self).repos@.len() == old(self).repos@.len()
                &&& forall|j: int| 0 <= j < old(self).repos@.len() && j != index ==> final(self).repos@[j] == old(self).repos@[j]
                &&& final(self).repos@[index as int].path == old(self).repos@[index as int].path
                &&& final(self).repos@[index as int].name == old(self).repos@[index as int].name
                &&& final(self).repos@[index as int].status == Some(repo_status)
                &&& !final(self).repos@[index as int].git_op
            },
            index >= old(self).repos@.len() ==> final(self).repos == old(self).repos,
            final(self).selected == old(self).selected,
            final(self).expanded() == old(self).expanded(),
    {
        if index < self.repos.len() {
            let old_entry = self.repos.remove(index);
            let entry = RepoEntry {
                path: old_entry.path,
                name: old_entry.name,
                status: Some(repo_status),
                git_op: false,
            };
            self.repos.insert(index, entry);
        }
    }

    /// Shows or hides the worktrees of the selected row's repository; when
    /// hiding, the selection moves to the repository's row.
    /// `after` is this list with the selected repository's worktrees
    /// folded or unfolded: unfolding adds it to the unfolded set; folding
    /// removes it and selects the repository's own row; a repository
    /// without worktrees (or no selection) changes nothing.
    pub open spec fn expand_toggled(self, after: RepoList) -> bool {
        &&& after.repos == self.repos
        &&& ({
                let rows = self.rows();
                match self.selected {
                    Some(di) => if 0 <= di < rows.len() {
                        let ri = match rows[di as int] {
                            DisplayRow::Repo(i) => i,
                            DisplayRow::Worktree(i, _) => i,
                        };
                        let e = self.repos@[ri as int];
                        let has_wt = match e.status {
                            Some(st) => st.worktree_info@.len() > 0,
                            None => false,
                        };
                        if !has_wt {
                            after.expanded() == self.expanded() && after.selected == self.selected
                        } else if is_expanded(self.expanded(), e.path@) {
                            &&& string_views(after.expanded()) == string_views(self.expanded()).filter(
                                |p: Seq<char>| p != e.path@,
                            )
                            &&& first_row_of(after.rows(), ri, after.selected)
                        } else {
                            string_views(after.expanded()) == string_views(self.expanded()).push(e.path@)
                                && after.selected == self.selected
                        }
                    } else {
                        after.expanded() == self.expanded() && after.selected == self.selected
                    },
                    None => after.expanded() == self.expanded() && after.selected == self.selected,
                }
            })
    }

    pub fn toggle_expand(&mut self)
        ensures
            old(self).expand_toggled(*final(self)),
    {
        let di = match self.selected {
            Some(di) => di,
            None => return,
        };
        let rows = self.display_rows();
        if di >= rows.len() {
            return;
        }
        let repo_idx = match rows[di] {
            DisplayRow::Repo(i) => i,
            DisplayRow::Worktree(ri, _) => ri,
        };
        proof {
            lemma_rows_index(self.repos@, self.expanded_repos@, self.repos@.len() as int, di as int);
        }
        let has_worktrees = match &self.repos[repo_idx].status {
            Some(st) => st.worktree_info.len() > 0,
            None => false,
        };
        if !has_worktrees {
            return;
        }
        let path = self.repos[repo_idx].path.clone();
        if crate::text::contains_string(&self.expanded_repos, path.as_str()) {
            let mut kept: Vec<String> = Vec::new();
            let mut i: usize = 0;
            let ghost pred = |p: Seq<char>| p != path@;
            while i < self.expanded_repos.len()
                invariant
                    i <= self.expanded_repos@.len(),
                    self.expanded_repos@ == old(self).expanded_repos@,
                    self.repos == old(self).repos,
                    string_views(kept@) == string_views(self.expanded_repos@.take(i as int)).filter(pred),
                    pred == (|p: Seq<char>| p != path@),
                decreases self.expanded_repos@.len() - i,
            {
                let keep = !str_eq(self.expanded_repos[i].as_str(), path.as_str());
                proof {
                    let a = self.expanded_repos@.take(i as int);
                    let x = self.expanded_repos@[i as int];
                    assert(self.expanded_repos@.take(i + 1) =~= a.push(x));
                    assert(string_views(a.push(x)) =~= string_views(a).push(x@));
                    string_views(a).lemma_filter_push(x@, pred);
                }
                if keep {
                    kept.push(self.expanded_repos[i].clone());
                    assert(string_views(kept@) =~= string_views(self.expanded_repos@.take(i as int)).filter(
                        pred,
                    ).push(self.expanded_repos@[i as int]@));
                }
                i = i + 1;
            }
            assert(self.expanded_repos@.take(i as int) =~= self.expanded_repos@);
            self.expanded_repos = kept;
            proof {
                lemma_rows_have_repo(self.repos@, self.expanded_repos@, self.repos@.len() as int, repo_idx as int);
            }
            self.select_repo_row(repo_idx);
        } else {
            self.expanded_repos.push(path);
            assert(string_views(self.expanded_repos@) =~= string_views(old(self).expanded_repos@).push(
                old(self).repos@[repo_idx as int].path@,
            ));
        }
    }
}

/// Every display row names an existing repository.
proof fn lemma_rows_index(repos: Seq<RepoEntry>, expanded: Seq<String>, n: int, di: int)
    requires
        0 <= n <= repos.len(),
        0 <= di < rows_upto(repos, expanded, n).len(),
    ensures
        match rows_upto(repos, expanded, n)[di] {
            DisplayRow::Repo(i) => 0 <= i < n,
            DisplayRow::Worktree(i, _) => 0 <= i < n,
        },
    decreases n,
{
    if n > 0 {
        let prev = rows_upto(repos, expanded, n - 1);
        if di < prev.len() {
            lemma_rows_index(repos, expanded, n - 1, di);
        }
    }
}

/// Every listed repository has a row.
proof fn lemma_rows_have_repo(repos: Seq<RepoEntry>, expanded: Seq<String>, n: int, ri: int)
    requires
        0 <= ri < n <= repos.len(),
    ensures
        exists|di: int| 0 <= di < rows_upto(repos, expanded, n).len() && rows_upto(repos, expanded, n)[di]
            == DisplayRow::Repo(ri as usize),
    decreases n,
{
    let prev = rows_upto(repos, expanded, n - 1);
    let all = rows_upto(repos, expanded, n);
    assert(all == prev + seq![DisplayRow::Repo((n - 1) as usize)] + worktree_rows(repos, expanded, n - 1));
    if ri < n - 1 {
        lemma_rows_have_repo(repos, expanded, n - 1, ri);
        let di = choose|di: int| 0 <= di < prev.len() && prev[di] == DisplayRow::Repo(ri as usize);
        assert(all[di] == prev[di]);
    } else {
        assert(all[prev.len() as int] == DisplayRow::Repo(ri as usize));
    }
}

/// Alphabetical key of a repository: its name, lower-cased.
pub open spec fn name_key(e: RepoEntry) -> Seq<char> {
    lowercase(e.name@)
}

/// Whether a repository has uncommitted changes.
pub open spec fn entry_dirty(e: RepoEntry) -> bool {
    match e.status {
        Some(st) => st.is_dirty,
        None => false,
    }
}

/// Key putting dirty repositories first, then by lower-cased name.
pub open spec fn dirty_key(e: RepoEntry) -> Seq<char> {
    seq![if entry_dirty(e) { '0' } else { '1' }] + lowercase(e.name@)
}

pub open spec fn name_keys(repos: Seq<RepoEntry>) -> Seq<Seq<char>> {
    repos.map_values(|e: RepoEntry| name_key(e))
}

pub open spec fn dirty_keys(repos: Seq<RepoEntry>) -> Seq<Seq<char>> {
    repos.map_values(|e: RepoEntry| dirty_key(e))
}

/// `repos` rearranged by `p`.
pub open spec fn rearranged(repos: Seq<RepoEntry>, p: Seq<usize>) -> Seq<RepoEntry> {
    p.map_values(|i: usize| repos[i as int])
}

/// Moves the entries of `v` into the order `p` lists.
fn take_in_order(v: Vec<RepoEntry>, p: &Vec<usize>) -> (r: Vec<RepoEntry>)
    requires
        p@.len() == v@.len(),
        forall|i: int| 0 <= i < p@.len() ==> (#[trigger] p@[i]) < v@.len(),
        forall|i: int, j: int| 0 <= i < j < p@.len() ==> #[trigger] p@[i] != #[trigger] p@[j],
    ensures
        r@ == rearranged(v@, p@),
{
    let ghost orig = v@;
    let n = v.len();
    let mut slots: Vec<Option<RepoEntry>> = Vec::new();
    let mut v = v;
    while v.len() > 0
        invariant
            n == orig.len(),
            slots@.len() + v@.len() == n,
            v@ == orig.skip(slots@.len() as int),
            forall|k: int| 0 <= k < slots@.len() ==> #[trigger] slots@[k] == Some(orig[k]),
        decreases v@.len(),
    {
        let ghost k0 = slots@.len();
        let e = v.remove(0);
        slots.push(Some(e));
        assert(v@ =~= orig.skip(slots@.len() as int));
    }
    let mut r: Vec<RepoEntry> = Vec::new();
    let mut k: usize = 0;
    while k < n
        invariant
            k <= n,
            n == orig.len(),
            p@.len() == n,
            slots@.len() == n,
            forall|i: int| 0 <= i < p@.len() ==> (#[trigger] p@[i]) < n,
            forall|i: int, j: int| 0 <= i < j < p@.len() ==> #[trigger] p@[i] != #[trigger] p@[j],
            forall|i: int|
                0 <= i < n && !(exists|j: int| 0 <= j < k && p@[j] == i) ==> #[trigger] slots@[i] == Some(orig[i]),
            r@ == rearranged(orig, p@.take(k as int)),
        decreases n - k,
    {
        let idx = p[k];
        proof {
            assert(!(exists|j: int| 0 <= j < k && p@[j] == idx)) by {
                if exists|j: int| 0 <= j < k && p@[j] == idx {
                    let j = choose|j: int| 0 <= j < k && p@[j] == idx;
                    assert(p@[j] != p@[k as int]);
                }
            }
        }
        let ghost before = slots@;
        let taken = slots.remove(idx);
        slots.insert(idx, None);
        let e = match taken {
            Some(e) => e,
            None => {
                proof {
                    assert(before[idx as int] == Some(orig[idx as int]));
                }
                return r;
            },
        };
        assert(e == orig[idx as int]);
        r.push(e);
        proof {
            assert forall|i: int|
                0 <= i < n && !(exists|j: int| 0 <= j < k + 1 && p@[j] == i) implies #[trigger] slots@[i] == Some(orig[i]) by {
                assert(i != idx);
                assert(slots@[i] == before[i]);
            }
        }
        k = k + 1;
        assert(r@ =~= rearranged(orig, p@.take(k as int)));
    }
    assert(p@.take(n as int) =~= p@);
    r
}

impl RepoList {
    fn name_key_exec(e: &RepoEntry) -> (r: Vec<char>)
        ensures
            r@ == name_key(*e),
    {
        let low = to_lowercase(e.name.as_str());
        str_chars(low.as_str())
    }

    /// Sorts the repositories by lower-cased name (ties keep their order).
    pub fn sort_alphabetical(&mut self)
        ensures
            exists|p: Seq<usize>|
                #[trigger] stable_order_spec(name_keys(old(self).repos@), p) && final(self).repos@ == rearranged(
                    old(self).repos@,
                    p,
                ),
            final(self).selected == old(self).selected,
            final(self).expanded_repos == old(self).expanded_repos,
    {
        let mut keys: Vec<Vec<char>> = Vec::new();
        let mut i: usize = 0;
        while i < self.repos.len()
            invariant
                i <= self.repos@.len(),
                self.repos == old(self).repos,
                keys@.len() == i,
                forall|j: int| 0 <= j < i ==> (#[trigger] keys@[j])@ == name_key(self.repos@[j]),
            decreases self.repos@.len() - i,
        {
            keys.push(Self::name_key_exec(&self.repos[i]));
            i = i + 1;
        }
        assert(keys@.map_values(|k: Vec<char>| k@) =~= name_keys(self.repos@));
        let p = stable_order(&keys);
        let mut repos: Vec<RepoEntry> = Vec::new();
        std::mem::swap(&mut repos, &mut self.repos);
        self.repos = take_in_order(repos, &p);
    }

    /// Sorts dirty repositories first, each group by lower-cased name
    /// (ties keep their order).
    pub fn sort_dirty_first(&mut self)
        ensures
            exists|p: Seq<usize>|
                #[trigger] stable_order_spec(dirty_keys(old(self).repos@), p) && final(self).repos@ == rearranged(
                    old(self).repos@,
                    p,
                ),
            final(self).selected == old(self).selected,
            final(self).expanded_repos == old(self).expanded_repos,
    {
        let mut keys: Vec<Vec<char>> = Vec::new();
        let mut i: usize = 0;
        while i < self.repos.len()
            invariant
                i <= self.repos@.len(),
                self.repos == old(self).repos,
                keys@.len() == i,
                forall|j: int| 0 <= j < i ==> (#[trigger] keys@[j])@ == dirty_key(self.repos@[j]),
            decreases self.repos@.len() - i,
        {
            let e = &self.repos[i];
            let dirty = match &e.status {
                Some(st) => st.is_dirty,
                None => false,
            };
            let mut k = vec![if dirty {
                '0'
            } else {
                '1'
            }];
            let mut rest = Self::name_key_exec(e);
            k.append(&mut rest);
            assert(k@ =~= dirty_key(*e));
            keys.push(k);
            i = i + 1;
        }
        assert(keys@.map_values(|k: Vec<char>| k@) =~= dirty_keys(self.repos@));
        let p = stable_order(&keys);
        let mut repos: Vec<RepoEntry> = Vec::new();
        std::mem::swap(&mut repos, &mut self.repos);
        self.repos = take_in_order(repos, &p);
    }
}

/// What the repository list asks for after an input event.
#[derive(Debug)]
pub enum RepoRequest {
    SelectRepo(RepoId),
    SelectWorktree { repo_id: RepoId, worktree_path: String, worktree_branch: String },
    ShowRepoGitGraph(RepoId),
    ShowContextMenu { id: RepoId, row: u16, col: u16 },
}

impl RepoList {
    /// The request for the selected row: its repository, or its worktree.
    pub open spec fn selection_request(&self) -> Option<RepoRequest> {
        match self.selected {
            Some(di) => if di < self.rows().len() {
                match self.rows()[di as int] {
                    DisplayRow::Repo(i) => if i < self.repos@.len() {
                        Some(RepoRequest::SelectRepo(RepoId(self.repos@[i as int].path)))
                    } else {
                        None
                    },
                    DisplayRow::Worktree(ri, wi) => if ri < self.repos@.len() && self.repos@[ri as int].status is Some && wi
                        < self.repos@[ri as int].status->0.worktree_info@.len() {
                        let wt = self.repos@[ri as int].status->0.worktree_info@[wi as int];
                        Some(
                            RepoRequest::SelectWorktree {
                                repo_id: RepoId(self.repos@[ri as int].path),
                                worktree_path: wt.path,
                                worktree_branch: wt.branch,
                            },
                        )
                    } else {
                        None
                    },
                }
            } else {
                None
            },
            None => None,
        }
    }

    /// The request to open the graph of the selected row's repository.
    pub open spec fn open_graph_request(&self) -> Option<RepoRequest> {
        match self.selected_repo_index() {
            Some(i) => if i < self.repos@.len() {
                Some(RepoRequest::ShowRepoGitGraph(RepoId(self.repos@[i as int].path)))
            } else {
                None
            },
            None => None,
        }
    }

    /// Asks for the selected row: its repository, or its worktree.
    pub fn emit_selection_action(&self) -> (r: Option<RepoRequest>)
        ensures
            r == self.selection_request(),
    {
        let di = match self.selected {
            Some(di) => di,
            None => return None,
        };
        let rows = self.display_rows();
        if di >= rows.len() {
            return None;
        }
        match rows[di] {
            DisplayRow::Repo(i) => if i < self.repos.len() {
                Some(RepoRequest::SelectRepo(RepoId(self.repos[i].path.clone())))
            } else {
                None
            },
            DisplayRow::Worktree(ri, wi) => {
                if ri >= self.repos.len() {
                    return None;
                }
                let entry = &self.repos[ri];
                match &entry.status {
                    Some(st) => if wi < st.worktree_info.len() {
                        Some(
                            RepoRequest::SelectWorktree {
                                repo_id: RepoId(entry.path.clone()),
                                worktree_path: st.worktree_info[wi].path.clone(),
                                worktree_branch: st.worktree_info[wi].branch.clone(),
                            },
                        )
                    } else {
                        None
                    },
                    None => None,
                }
            },
        }
    }

    /// Asks to open the graph of the selected row's repository.
    pub fn emit_open_graph_action(&self) -> (r: Option<RepoRequest>)
        ensures
            r == self.open_graph_request(),
    {
        match self.selected_index() {
            Some(i) => if i < self.repos.len() {
                Some(RepoRequest::ShowRepoGitGraph(RepoId(self.repos[i].path.clone())))
            } else {
                None
            },
            None => None,
        }
    }

    /// Handles a key: `j`/Down and `k`/Up move the selection and `w` shows
    /// or hides the worktrees, each asking for the newly selected row;
    /// Enter asks to open the selected repository's graph.
    pub fn handle_key_event(&mut self, key: KeyEvent) -> (r: Option<RepoRequest>)
        ensures
            final(self).repos == old(self).repos,
            (key.code == KeyCode::Char('j') || key.code == KeyCode::Down) ==> r == final(self).selection_request()
                && final(self).expanded() == old(self).expanded() && final(self).selected == (if old(self).rows().len()
                == 0 {
                old(self).selected
            } else {
                match old(self).selected {
                    Some(i) => Some(
                        if i + 1 < old(self).rows().len() { (i + 1) as usize } else { (old(self).rows().len() - 1) as usize },
                    ),
                    None => Some(0usize),
                }
            }),
            (key.code == KeyCode::Char('k') || key.code == KeyCode::Up) ==> r == final(self).selection_request()
                && final(self).expanded() == old(self).expanded() && final(self).selected == (if old(self).rows().len()
                == 0 {
                old(self).selected
            } else {
                match old(self).selected {
                    Some(i) => Some(if i > 0 { (i - 1) as usize } else { 0usize }),
                    None => Some(0usize),
                }
            }),
            key.code == KeyCode::Char('w') ==> r == final(self).selection_request() && old(self).expand_toggled(*final(self)),
            key.code == KeyCode::Enter ==> r == old(self).open_graph_request() && *final(self) == *old(self),
            !(key.code == KeyCode::Char('j') || key.code == KeyCode::Down || key.code == KeyCode::Char('k') || key.code
                == KeyCode::Up || key.code == KeyCode::Char('w') || key.code == KeyCode::Enter) ==> r is None && *final(
                self) == *old(self),
    {
        match key.code {
            KeyCode::Char('j') | KeyCode::Down => {
                self.select_next();
                self.emit_selection_action()
            },
            KeyCode::Char('k') | KeyCode::Up => {
                self.select_prev();
                self.emit_selection_action()
            },
            KeyCode::Char('w') => {
                self.toggle_expand();
                self.emit_selection_action()
            },
            KeyCode::Enter => self.emit_open_graph_action(),
            _ => None,
        }
    }

    /// Handles a mouse event: a left click selects a row and asks for it (a
    /// second click on a selected repository opens its graph); a right
    /// click on a repository selects it and asks for its context menu; the
    /// wheel moves the selection.
    pub fn handle_mouse_event(&mut self, mouse: MouseInput) -> (r: Option<RepoRequest>)
        requires
            old(self).render_area.y < u16::MAX,
            old(self).render_area.x + old(self).render_area.width <= u16::MAX,
            old(self).offset + u16::MAX <= usize::MAX,
        ensures
            final(self).repos == old(self).repos,
            final(self).expanded() == old(self).expanded(),
            match mouse {
                MouseInput::LeftDown(col, row) => match clicked_row(
                    old(self).render_area,
                    col,
                    row,
                    old(self).offset,
                    old(self).rows().len(),
                ) {
                    Some(idx) => if old(self).selected == Some(idx) {
                        *final(self) == *old(self) && r == match old(self).rows()[idx as int] {
                            DisplayRow::Repo(_) => old(self).open_graph_request(),
                            DisplayRow::Worktree(_, _) => old(self).selection_request(),
                        }
                    } else {
                        final(self).selected == Some(idx) && r == final(self).selection_request()
                    },
                    None => r is None && *final(self) == *old(self),
                },
                MouseInput::RightDown(col, row) => match clicked_row(
                    old(self).render_area,
                    col,
                    row,
                    old(self).offset,
                    old(self).rows().len(),
                ) {
                    Some(idx) => final(self).selected == Some(idx) && r == match old(self).rows()[idx as int] {
                        DisplayRow::Repo(i) => if i < old(self).repos@.len() {
                            Some(RepoRequest::ShowContextMenu { id: RepoId(old(self).repos@[i as int].path), row, col })
                        } else {
                            None
                        },
                        DisplayRow::Worktree(_, _) => None,
                    },
                    None => r is None && *final(self) == *old(self),
                },
                MouseInput::ScrollUp(_, _) => r == final(self).selection_request() && final(self).selected == (if old(
                    self,
                ).rows().len() == 0 {
                    old(self).selected
                } else {
                    match old(self).selected {
                        Some(i) => Some(if i > 0 { (i - 1) as usize } else { 0usize }),
                        None => Some(0usize),
                    }
                }),
                MouseInput::ScrollDown(_, _) => r == final(self).selection_request() && final(self).selected == (if old(
                    self,
                ).rows().len() == 0 {
                    old(self).selected
                } else {
                    match old(self).selected {
                        Some(i) => Some(
                            if i + 1 < old(self).rows().len() { (i + 1) as usize } else { (old(self).rows().len() - 1) as usize },
                        ),
                        None => Some(0usize),
                    }
                }),
                _ => r is None && *final(self) == *old(self),
            },
    {
        match mouse {
            MouseInput::LeftDown(col, row) => {
                let rows = self.display_rows();
                match clicked_list_index(self.render_area, col, row, self.offset, rows.len()) {
                    Some(idx) => {
                        if self.selected == Some(idx) {
                            return match rows[idx] {
                                DisplayRow::Repo(_) => self.emit_open_graph_action(),
                                DisplayRow::Worktree(_, _) => self.emit_selection_action(),
                            };
                        }
                        self.selected = Some(idx);
                        self.emit_selection_action()
                    },
                    None => None,
                }
            },
            MouseInput::RightDown(col, row) => {
                let rows = self.display_rows();
                match clicked_list_index(self.render_area, col, row, self.offset, rows.len()) {
                    Some(idx) => {
                        self.selected = Some(idx);
                        match rows[idx] {
                            DisplayRow::Repo(i) => if i < self.repos.len() {
                                Some(RepoRequest::ShowContextMenu { id: RepoId(self.repos[i].path.clone()), row, col })
                            } else {
                                None
                            },
                            DisplayRow::Worktree(_, _) => None,
                        }
                    },
                    None => None,
                }
            },
            MouseInput::ScrollUp(_, _) => {
                self.select_prev();
                self.emit_selection_action()
            },
            MouseInput::ScrollDown(_, _) => {
                self.select_next();
                self.emit_selection_action()
            },
            _ => None,
        }
    }
}

} // verus!
