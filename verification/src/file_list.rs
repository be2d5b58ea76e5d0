//! The changed files of the selected repository: selection, marks for a
//! partial commit, and the diff pane of one file.
use vstd::prelude::*;
use crate::repo::RepoId;
use crate::sort::{path_keys, sort_paths, stable_order_spec};
use crate::status::FileEntry;
use crate::text::{owned, push_decimal, push_str, str_eq, string_views, decimal};
use crate::ui::{
    area_contains, area_contains_spec, clicked_list_index, handle_vertical_key, preserve_or_first,
    scroll_down, scroll_reset, scroll_up, scroll_vertical_key, select_first, select_next, select_prev,
    vertical_key_spec, vertical_move_spec, Area, KeyCode, KeyEvent, MouseInput, VerticalMove,
};

verus! {

/// Two entries for the same path in the same state.
pub open spec fn same_entry(a: FileEntry, b: FileEntry) -> bool {
    &&& a.path@ == b.path@
    &&& a.status == b.status
    &&& a.is_submodule == b.is_submodule
    &&& a.submodule_state == b.submodule_state
}

/// Two file lists with the same entries in the same order.
pub open spec fn same_files(a: Seq<FileEntry>, b: Seq<FileEntry>) -> bool {
    &&& a.len() == b.len()
    &&& forall|i: int| 0 <= i < a.len() ==> same_entry(#[trigger] a[i], b[i])
}

/// Whether some entry of `files` is for path `p`.
pub open spec fn lists_path(files: Seq<FileEntry>, p: Seq<char>) -> bool {
    exists|i: int| 0 <= i < files.len() && #[trigger] files[i].path@ == p
}

/// Paths other than `p`.
pub open spec fn other_than(p: Seq<char>) -> spec_fn(Seq<char>) -> bool {
    |q: Seq<char>| q != p
}

/// Marks after toggling path `p`: unmarked when marked, else marked last.
pub open spec fn toggled(marks: Seq<Seq<char>>, p: Seq<char>) -> Seq<Seq<char>> {
    if marks.contains(p) {
        marks.filter(other_than(p))
    } else {
        marks.push(p)
    }
}

/// An empty rectangle.
pub open spec fn no_area() -> Area {
    Area { x: 0, y: 0, width: 0, height: 0 }
}

/// A click in `area` can be mapped to a row without overflow.
pub open spec fn click_fits(area: Area, offset: usize) -> bool {
    &&& area.y < u16::MAX
    &&& area.x + area.width <= u16::MAX
    &&& offset + u16::MAX <= usize::MAX
}

/// Removing the marks of vanished files keeps each mark once.
proof fn lemma_filter_keeps_distinct(s: Seq<Seq<char>>, pred: spec_fn(Seq<char>) -> bool)
    requires
        s.no_duplicates(),
    ensures
        s.filter(pred).no_duplicates(),
    decreases s.len(),
{
    if s.len() > 0 {
        let a = s.drop_last();
        let x = s.last();
        assert(a.no_duplicates()) by {
            assert forall|i: int, j: int| 0 <= i < a.len() && 0 <= j < a.len() && i != j implies a[i] != a[j] by {
                assert(a[i] == s[i] && a[j] == s[j]);
            }
        }
        lemma_filter_keeps_distinct(a, pred);
        assert(s =~= a.push(x));
        a.lemma_filter_push(x, pred);
        if pred(x) && a.filter(pred).contains(x) {
            a.lemma_filter_contains_rev(pred, x);
            let k = choose|k: int| 0 <= k < a.len() && a[k] == x;
            assert(s[k] == s[s.len() - 1]);
        }
    }
}

/// Whether the two entry lists are the same.
pub fn files_equal(a: &Vec<FileEntry>, b: &Vec<FileEntry>) -> (r: bool)
    ensures
        r == same_files(a@, b@),
{
    if a.len() != b.len() {
        return false;
    }
    let mut i: usize = 0;
    while i < a.len()
        invariant
            a@.len() == b@.len(),
            i <= a@.len(),
            forall|j: int| 0 <= j < i ==> same_entry(#[trigger] a@[j], b@[j]),
        decreases a@.len() - i,
    {
        let x = &a[i];
        let y = &b[i];
        if !(str_eq(x.path.as_str(), y.path.as_str()) && x.status == y.status && x.is_submodule == y.is_submodule
            && x.submodule_state == y.submodule_state) {
            return false;
        }
        i = i + 1;
    }
    true
}

/// The list of changed files.
#[derive(Debug)]
pub struct FileList {
    pub files: Vec<FileEntry>,
    /// Paths marked for a partial commit, each once; none marked means
    /// that the commit takes every file.
    pub marked: Vec<String>,
    pub selected: Option<usize>,
    /// First list row on screen (kept by the renderer).
    pub offset: usize,
    pub repo_name: String,
    pub repo_id: Option<RepoId>,
    pub focused: bool,
    /// Where the panel was last drawn.
    pub render_area: Area,
    /// Where the list was last drawn beside an open diff.
    pub file_list_area: Area,
    /// Where the diff was last drawn.
    pub diff_area: Area,
    pub diff_content: Option<String>,
    pub diff_scroll: u16,
    pub horizontal_layout: bool,
    /// Counter that tells stale diff loads apart.
    pub diff_generation: u64,
}

impl FileList {
    /// Each path is marked at most once.
    pub open spec fn wf(&self) -> bool {
        string_views(self.marked@).no_duplicates()
    }

    /// The marked paths, in marking order.
    pub open spec fn marks(&self) -> Seq<Seq<char>> {
        string_views(self.marked@)
    }

    /// Whether the list shows the files of repository `id`.
    pub open spec fn lists_repo(&self, id: RepoId) -> bool {
        self.repo_id matches Some(r) && r.0@ == id.0@
    }

    /// The path of the selected entry, if the selection is on an entry.
    pub open spec fn selected_entry_path(&self) -> Option<Seq<char>> {
        match self.selected {
            Some(i) => if i < self.files@.len() { Some(self.files@[i as int].path@) } else { None },
            None => None,
        }
    }

    /// The panel with `selected` as selection; the list scrolls back to
    /// the top when nothing is selected.
    pub open spec fn with_selection(self, selected: Option<usize>) -> FileList {
        FileList { selected, offset: if selected is None { 0 } else { self.offset }, ..self }
    }

    /// An empty list.
    pub fn new() -> (r: Self)
        ensures
            r.wf(),
            r.files@.len() == 0,
            r.marked@.len() == 0,
            r.selected is None,
            r.offset == 0,
            r.repo_name@.len() == 0,
            r.repo_id is None,
            !r.focused,
            r.render_area == no_area() && r.file_list_area == no_area() && r.diff_area == no_area(),
            r.diff_content is None,
            r.diff_scroll == 0,
            !r.horizontal_layout,
            r.diff_generation == 0,
    {
        let r = FileList {
            files: Vec::new(),
            marked: Vec::new(),
            selected: None,
            offset: 0,
            repo_name: String::new(),
            repo_id: None,
            focused: false,
            render_area: Area { x: 0, y: 0, width: 0, height: 0 },
            file_list_area: Area { x: 0, y: 0, width: 0, height: 0 },
            diff_area: Area { x: 0, y: 0, width: 0, height: 0 },
            diff_content: None,
            diff_scroll: 0,
            horizontal_layout: false,
            diff_generation: 0,
        };
        assert(r.marks() =~= Seq::<Seq<char>>::empty());
        r
    }

    /// Sets the selection; clearing it scrolls the list to the top.
    fn select(&mut self, selected: Option<usize>)
        ensures
            *final(self) == old(self).with_selection(selected),
    {
        self.selected = selected;
        if selected.is_none() {
            self.offset = 0;
        }
    }

    /// Shows the changed files of repository `repo_id`. Marks survive only
    /// for the same repository and only on paths still listed; a changed
    /// list closes the diff; the selection stays (clamped) within the same
    /// repository and starts on the first entry for another one.
    pub fn set_files(&mut self, files: Vec<FileEntry>, repo_name: &str, repo_id: RepoId)
        requires
            old(self).wf(),
        ensures
            final(self).wf(),
            final(self).files == files,
            final(self).repo_name@ == repo_name@,
            final(self).repo_id == Some(repo_id),
            final(self).marks() == (if old(self).lists_repo(repo_id) {
                old(self).marks().filter(|p: Seq<char>| lists_path(files@, p))
            } else {
                Seq::empty()
            }),
            (old(self).lists_repo(repo_id) && same_files(old(self).files@, files@)) ==> final(self).diff_content
                == old(self).diff_content && final(self).diff_scroll == old(self).diff_scroll,
            !(old(self).lists_repo(repo_id) && same_files(old(self).files@, files@)) ==> final(self).diff_content is None
                && final(self).diff_scroll == 0,
            final(self).selected == (if files@.len() == 0 {
                None
            } else if old(self).lists_repo(repo_id) {
                match old(self).selected {
                    Some(i) => Some(if i < files@.len() { i } else { (files@.len() - 1) as usize }),
                    None => Some(0usize),
                }
            } else {
                Some(0usize)
            }),
            final(self).offset == (if final(self).selected is None { 0 } else { old(self).offset }),
            final(self).focused == old(self).focused,
            final(self).render_area == old(self).render_area,
            final(self).file_list_area == old(self).file_list_area,
            final(self).diff_area == old(self).diff_area,
            final(self).horizontal_layout == old(self).horizontal_layout,
            final(self).diff_generation == old(self).diff_generation,
    {
        let is_same_repo = match &self.repo_id {
            Some(r) => str_eq(r.0.as_str(), repo_id.0.as_str()),
            None => false,
        };
        let prev_selected = self.selected;
        let files_changed = !is_same_repo || !files_equal(&self.files, &files);
        let ghost pred = |p: Seq<char>| lists_path(files@, p);
        if is_same_repo {
            let mut kept: Vec<String> = Vec::new();
            let mut i: usize = 0;
            while i < self.marked.len()
                invariant
                    i <= self.marked@.len(),
                    self.marked@ == old(self).marked@,
                    string_views(kept@) == string_views(self.marked@.take(i as int)).filter(pred),
                    pred == (|p: Seq<char>| lists_path(files@, p)),
                decreases self.marked@.len() - i,
            {
                let mut listed = false;
                let mut k: usize = 0;
                while k < files.len()
                    invariant
                        k <= files@.len(),
                        i < self.marked@.len(),
                        listed == exists|j: int| 0 <= j < k && #[trigger] files@[j].path@ == self.marked@[i as int]@,
                    decreases files@.len() - k,
                {
                    if str_eq(files[k].path.as_str(), self.marked[i].as_str()) {
                        listed = true;
                    }
                    k = k + 1;
                }
                proof {
                    let a = self.marked@.take(i as int);
                    let x = self.marked@[i as int];
                    assert(self.marked@.take(i + 1) =~= a.push(x));
                    assert(string_views(a.push(x)) =~= string_views(a).push(x@));
                    string_views(a).lemma_filter_push(x@, pred);
                    assert(listed == pred(x@));
                }
                if listed {
                    kept.push(self.marked[i].clone());
                    assert(string_views(kept@) =~= string_views(self.marked@.take(i as int)).filter(pred).push(
                        self.marked@[i as int]@,
                    ));
                }
                i = i + 1;
            }
            proof {
                assert(self.marked@.take(i as int) =~= self.marked@);
                lemma_filter_keeps_distinct(string_views(self.marked@), pred);
            }
            self.marked = kept;
        } else {
            self.marked = Vec::new();
            assert(string_views(self.marked@) =~= Seq::<Seq<char>>::empty());
        }
        self.files = files;
        self.repo_name = owned(repo_name);
        self.repo_id = Some(repo_id);
        if files_changed {
            self.diff_content = None;
            scroll_reset(&mut self.diff_scroll);
        }
        let n = self.files.len();
        if n == 0 {
            self.select(None);
        } else if is_same_repo {
            self.select(preserve_or_first(prev_selected, n));
        } else {
            self.select(select_first(n));
        }
    }

    /// Opens the diff pane with `content`, scrolled to the top.
    pub fn set_diff(&mut self, content: String)
        ensures
            *final(self) == (FileList { diff_content: Some(content), diff_scroll: 0, ..*old(self) }),
    {
        self.diff_content = Some(content);
        self.diff_scroll = 0;
    }

    /// Opens the diff pane with content loaded by diff request `generation`
    /// if that is still the latest request; otherwise nothing changes.
    pub fn set_diff_if_current(&mut self, generation: u64, content: String) -> (applied: bool)
        ensures
            applied == (generation == old(self).diff_generation),
            applied ==> *final(self) == (FileList { diff_content: Some(content), diff_scroll: 0, ..*old(self) }),
            !applied ==> *final(self) == *old(self),
    {
        if generation == self.diff_generation {
            self.set_diff(content);
            true
        } else {
            false
        }
    }

    /// Whether the diff pane is open.
    pub fn viewing_diff(&self) -> (r: bool)
        ensures
            r == (self.diff_content is Some),
    {
        self.diff_content.is_some()
    }

    /// Path of the selected entry.
    pub fn selected_path(&self) -> (r: Option<String>)
        ensures
            r matches Some(s) ==> self.selected_entry_path() == Some(s@),
            r is None ==> self.selected_entry_path() is None,
    {
        match self.selected {
            Some(i) => if i < self.files.len() {
                Some(self.files[i].path.clone())
            } else {
                None
            },
            None => None,
        }
    }

    /// Generation of the latest diff request.
    pub fn diff_generation(&self) -> (r: u64)
        ensures
            r == self.diff_generation,
    {
        self.diff_generation
    }

    /// The marked paths in path order, if the list shows repository
    /// `repo_id`; otherwise none.
    pub fn marked_paths_for(&self, repo_id: &RepoId) -> (r: Vec<String>)
        ensures
            !self.lists_repo(*repo_id) ==> r@.len() == 0,
            self.lists_repo(*repo_id) ==> exists|p: Seq<usize>|
                stable_order_spec(path_keys(self.marked@), p) && r@.len() == p.len() && forall|i: int|
                    0 <= i < p.len() ==> #[trigger] r@[i] == self.marked@[p[i] as int],
    {
        let same = match &self.repo_id {
            Some(r) => str_eq(r.0.as_str(), repo_id.0.as_str()),
            None => false,
        };
        if !same {
            return Vec::new();
        }
        let mut copy: Vec<String> = Vec::new();
        let mut i: usize = 0;
        while i < self.marked.len()
            invariant
                i <= self.marked@.len(),
                copy@ == self.marked@.take(i as int),
            decreases self.marked@.len() - i,
        {
            copy.push(self.marked[i].clone());
            assert(copy@ =~= self.marked@.take(i + 1));
            i = i + 1;
        }
        assert(copy@ =~= self.marked@);
        sort_paths(copy)
    }

    /// Marks the selected entry's path, or unmarks it when marked.
    pub fn toggle_mark(&mut self)
        requires
            old(self).wf(),
        ensures
            final(self).wf(),
            final(self).marks() == match old(self).selected_entry_path() {
                Some(p) => toggled(old(self).marks(), p),
                None => old(self).marks(),
            },
            final(self).files == old(self).files,
            final(self).selected == old(self).selected,
            final(self).offset == old(self).offset,
            final(self).repo_id == old(self).repo_id,
            final(self).diff_content == old(self).diff_content,
            final(self).diff_scroll == old(self).diff_scroll,
            final(self).diff_generation == old(self).diff_generation,
    {
        let idx = match self.selected {
            Some(i) => i,
            None => return,
        };
        if idx >= self.files.len() {
            return;
        }
        let path = self.files[idx].path.clone();
        let ghost p = path@;
        let ghost pred = other_than(p);
        let mut kept: Vec<String> = Vec::new();
        let mut found = false;
        let mut i: usize = 0;
        while i < self.marked.len()
            invariant
                i <= self.marked@.len(),
                self.marked@ == old(self).marked@,
                p == path@,
                pred == other_than(p),
                string_views(kept@) == string_views(self.marked@.take(i as int)).filter(pred),
                found == string_views(self.marked@.take(i as int)).contains(p),
            decreases self.marked@.len() - i,
        {
            let same = str_eq(self.marked[i].as_str(), path.as_str());
            proof {
                let a = self.marked@.take(i as int);
                let x = self.marked@[i as int];
                assert(self.marked@.take(i + 1) =~= a.push(x));
                assert(string_views(a.push(x)) =~= string_views(a).push(x@));
                string_views(a).lemma_filter_push(x@, pred);
                assert(string_views(a).push(x@).contains(p) == (string_views(a).contains(p) || x@ == p)) by {
                    if string_views(a).contains(p) {
                        let k = choose|k: int| 0 <= k < string_views(a).len() && string_views(a)[k] == p;
                        assert(string_views(a).push(x@)[k] == p);
                    }
                    if x@ == p {
                        assert(string_views(a).push(x@)[string_views(a).len() as int] == p);
                    }
                    if string_views(a).push(x@).contains(p) {
                        let k = choose|k: int| 0 <= k < string_views(a).push(x@).len() && string_views(a).push(x@)[k] == p;
                        if k < string_views(a).len() {
                            assert(string_views(a)[k] == p);
                        }
                    }
                }
            }
            if same {
                found = true;
            } else {
                kept.push(self.marked[i].clone());
                assert(string_views(kept@) =~= string_views(self.marked@.take(i as int)).filter(pred).push(
                    self.marked@[i as int]@,
                ));
            }
            i = i + 1;
        }
        assert(self.marked@.take(i as int) =~= self.marked@);
        if found {
            proof {
                lemma_filter_keeps_distinct(string_views(self.marked@), pred);
            }
            self.marked = kept;
        } else {
            let ghost before = string_views(self.marked@);
            self.marked.push(path);
            assert(string_views(self.marked@) =~= before.push(p));
            assert(string_views(self.marked@).no_duplicates()) by {
                assert forall|a: int, b: int|
                    0 <= a < string_views(self.marked@).len() && 0 <= b < string_views(self.marked@).len() && a != b implies
                    string_views(self.marked@)[a] != string_views(self.marked@)[b] by {
                    if a == before.len() {
                        assert(before[b] != p);
                    } else if b == before.len() {
                        assert(before[a] != p);
                    } else {
                        assert(before[a] != before[b]);
                    }
                }
            }
        }
    }

    /// Asks for the diff of the selected entry: `(repository, path)`. The
    /// diff generation advances with each request.
    pub fn try_show_diff(&mut self) -> (r: Option<(RepoId, String)>)
        requires
            old(self).diff_generation < u64::MAX,
        ensures
            match (old(self).selected_entry_path(), old(self).repo_id) {
                (Some(p), Some(id)) => {
                    &&& r == Some((id, old(self).files@[old(self).selected->0 as int].path))
                    &&& *final(self) == (FileList { diff_generation: (old(self).diff_generation + 1) as u64, ..*old(self) })
                },
                _ => r is None && *final(self) == *old(self),
            },
    {
        let idx = match self.selected {
            Some(i) => i,
            None => return None,
        };
        let repo_id = match &self.repo_id {
            Some(id) => id.clone(),
            None => return None,
        };
        if idx >= self.files.len() {
            return None;
        }
        let path = self.files[idx].path.clone();
        self.diff_generation = self.diff_generation + 1;
        Some((repo_id, path))
    }

    /// Handles a key: with the diff open, Esc/`q`/`h`/Left close it and
    /// `j`/`k`/Down/Up scroll it; otherwise `j`/`k`/Down/Up move the
    /// selection, Enter asks for the selected file's diff and Space marks
    /// or unmarks it.
    pub fn handle_key_event(&mut self, key: KeyEvent) -> (r: Option<(RepoId, String)>)
        requires
            old(self).wf(),
            old(self).diff_generation < u64::MAX,
        ensures
            final(self).wf(),
            old(self).diff_content is Some ==> r is None && ({
                let closes = match key.code {
                    KeyCode::Esc | KeyCode::Left => true,
                    KeyCode::Char(c) => c == 'q' || c == 'h',
                    _ => false,
                };
                if closes {
                    *final(self) == (FileList { diff_content: None, diff_scroll: 0, ..*old(self) })
                } else {
                    *final(self) == (FileList {
                        diff_scroll: match vertical_move_spec(key) {
                            Some(VerticalMove::Next) => if old(self).diff_scroll < u16::MAX {
                                (old(self).diff_scroll + 1) as u16
                            } else {
                                u16::MAX
                            },
                            Some(VerticalMove::Prev) => if old(self).diff_scroll > 0 {
                                (old(self).diff_scroll - 1) as u16
                            } else {
                                0u16
                            },
                            None => old(self).diff_scroll,
                        },
                        ..*old(self)
                    })
                }
            }),
            old(self).diff_content is None ==> match vertical_key_spec(old(self).selected, old(self).files@.len() as usize, key) {
                Some(sel) => r is None && *final(self) == old(self).with_selection(sel),
                None => if key.code == KeyCode::Enter {
                    match (old(self).selected_entry_path(), old(self).repo_id) {
                        (Some(p), Some(id)) => r == Some((id, final(self).files@[old(self).selected->0 as int].path))
                            && *final(self) == (FileList { diff_generation: (old(self).diff_generation + 1) as u64, ..*old(self) }),
                        _ => r is None && *final(self) == *old(self),
                    }
                } else if key.code == KeyCode::Char(' ') {
                    r is None && final(self).files == old(self).files && final(self).selected == old(self).selected
                        && final(self).marks() == match old(self).selected_entry_path() {
                        Some(p) => toggled(old(self).marks(), p),
                        None => old(self).marks(),
                    }
                } else {
                    r is None && *final(self) == *old(self)
                },
            },
    {
        if self.diff_content.is_some() {
            let closes = match key.code {
                KeyCode::Esc | KeyCode::Left => true,
                KeyCode::Char(c) => c == 'q' || c == 'h',
                _ => false,
            };
            if closes {
                self.diff_content = None;
                scroll_reset(&mut self.diff_scroll);
            } else {
                let _ = scroll_vertical_key(&mut self.diff_scroll, key);
            }
            return None;
        }
        match handle_vertical_key(self.selected, self.files.len(), key) {
            Some(sel) => {
                self.select(sel);
                None
            },
            None => {
                if key.code == KeyCode::Enter {
                    self.try_show_diff()
                } else if key.code == KeyCode::Char(' ') {
                    self.toggle_mark();
                    None
                } else {
                    None
                }
            },
        }
    }

    /// Handles a mouse event: a click selects an entry (a click on the
    /// selected entry asks for its diff); the wheel scrolls the diff under
    /// the pointer, else moves the selection.
    pub fn handle_mouse_event(&mut self, mouse: MouseInput) -> (r: Option<(RepoId, String)>)
        requires
            old(self).diff_generation < u64::MAX,
            click_fits(if old(self).diff_content is Some { old(self).file_list_area } else { old(self).render_area }, old(self).offset),
        ensures
            final(self).marked == old(self).marked,
            final(self).files == old(self).files,
            match mouse {
                MouseInput::LeftDown(col, row) => {
                    let area = if old(self).diff_content is Some { old(self).file_list_area } else { old(self).render_area };
                    let hit = row - (area.y + 1) + old(self).offset;
                    if col < area.x || col >= area.x + area.width || row < area.y + 1 || hit >= old(self).files@.len() {
                        r is None && *final(self) == *old(self)
                    } else if old(self).selected == Some(hit as usize) {
                        match old(self).repo_id {
                            Some(id) => r == Some((id, old(self).files@[hit].path))
                                && *final(self) == (FileList { diff_generation: (old(self).diff_generation + 1) as u64, ..*old(self) }),
                            None => r is None && *final(self) == *old(self),
                        }
                    } else {
                        r is None && *final(self) == (FileList { selected: Some(hit as usize), ..*old(self) })
                    }
                },
                MouseInput::ScrollUp(col, row) => r is None && if old(self).diff_content is Some && area_contains_spec(
                    old(self).diff_area,
                    col,
                    row,
                ) {
                    *final(self) == (FileList {
                        diff_scroll: if old(self).diff_scroll > 0 { (old(self).diff_scroll - 1) as u16 } else { 0u16 },
                        ..*old(self)
                    })
                } else {
                    *final(self) == (FileList {
                        selected: if old(self).files@.len() == 0 {
                            old(self).selected
                        } else {
                            match old(self).selected {
                                Some(i) => Some(if i > 0 { (i - 1) as usize } else { 0usize }),
                                None => Some(0usize),
                            }
                        },
                        ..*old(self)
                    })
                },
                MouseInput::ScrollDown(col, row) => r is None && if old(self).diff_content is Some && area_contains_spec(
                    old(self).diff_area,
                    col,
                    row,
                ) {
                    *final(self) == (FileList {
                        diff_scroll: if old(self).diff_scroll < u16::MAX { (old(self).diff_scroll + 1) as u16 } else { u16::MAX },
                        ..*old(self)
                    })
                } else {
                    *final(self) == (FileList {
                        selected: if old(self).files@.len() == 0 {
                            old(self).selected
                        } else {
                            match old(self).selected {
                                Some(i) => Some(if i + 1 < old(self).files@.len() { (i + 1) as usize } else { (old(self).files@.len() - 1) as usize }),
                                None => Some(0usize),
                            }
                        },
                        ..*old(self)
                    })
                },
                _ => r is None && *final(self) == *old(self),
            },
    {
        match mouse {
            MouseInput::LeftDown(col, row) => {
                let area = if self.diff_content.is_some() {
                    self.file_list_area
                } else {
                    self.render_area
                };
                match clicked_list_index(area, col, row, self.offset, self.files.len()) {
                    Some(idx) => {
                        if self.selected == Some(idx) {
                            return self.try_show_diff();
                        }
                        self.selected = Some(idx);
                        None
                    },
                    None => None,
                }
            },
            MouseInput::ScrollUp(col, row) => {
                if self.diff_content.is_some() && area_contains(self.diff_area, col, row) {
                    scroll_up(&mut self.diff_scroll);
                } else {
                    self.selected = select_prev(self.selected, self.files.len());
                }
                None
            },
            MouseInput::ScrollDown(col, row) => {
                if self.diff_content.is_some() && area_contains(self.diff_area, col, row) {
                    scroll_down(&mut self.diff_scroll);
                } else {
                    self.selected = select_next(self.selected, self.files.len());
                }
                None
            },
            _ => None,
        }
    }

    /// Title of the list's frame.
    pub fn title(&self) -> (r: String)
        ensures
            self.repo_name@.len() == 0 ==> r@ == " Changes "@,
            self.repo_name@.len() > 0 && self.marked@.len() == 0 ==> r@ == " Changes — "@ + self.repo_name@ + " "@,
            self.repo_name@.len() > 0 && self.marked@.len() > 0 ==> r@ == " Changes — "@ + self.repo_name@ + " ("@
                + decimal(self.marked@.len()) + " marked) "@,
    {
        if self.repo_name.as_str().is_empty() {
            return owned(" Changes ");
        }
        let mut s = owned(" Changes — ");
        push_str(&mut s, self.repo_name.as_str());
        if self.marked.len() == 0 {
            push_str(&mut s, " ");
        } else {
            push_str(&mut s, " (");
            push_decimal(&mut s, self.marked.len() as u64);
            push_str(&mut s, " marked) ");
        }
        s
    }

    /// Text shown when the list has no entries.
    pub fn empty_message(&self) -> (r: &'static str)
        ensures
            self.repo_name@.len() == 0 ==> r@ == "Select a repository"@,
            self.repo_name@.len() > 0 ==> r@ == "No changes"@,
    {
        if self.repo_name.as_str().is_empty() {
            "Select a repository"
        } else {
            "No changes"
        }
    }

    /// Title of the diff pane.
    pub fn diff_title(&self) -> (r: String)
        ensures
            r@ == " Diff — "@ + self.repo_name@ + " (Esc/h to close) "@,
    {
        let mut s = owned(" Diff — ");
        push_str(&mut s, self.repo_name.as_str());
        push_str(&mut s, " (Esc/h to close) ");
        s
    }
}

} // verus!
