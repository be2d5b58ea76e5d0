//! State of the commit-graph panel: loaded rows, folded segments, the
//! selection, search, diff statistics and the commit detail pane.
use vstd::prelude::*;
use crate::config::BranchFilter;
use crate::graph::{DiffStat, GraphRow, RowView};
use crate::oid::Oid;
use crate::segments::{compute_branch_segments, segments_spec, BranchSegment};
use crate::text::{push_char, push_str, str_eq, string_views};
use crate::ui::{
    area_contains, area_contains_spec, clicked_list_index, clicked_row, handle_vertical_key, preserve_or_first, scroll_down, scroll_reset,
    scroll_after_key, scroll_up, scroll_vertical_key, select_next, select_next_spec, select_prev, select_prev_spec,
    vertical_key_spec, vertical_move_spec, Area, KeyCode,
    KeyEvent, MouseInput, VerticalMove,
};
use crate::view::{collapsed_rows, collapsed_rows_spec, matching_rows, matching_rows_spec, segments_nonempty, SearchState};

verus! {

/// How the graph is built and drawn.
#[derive(Debug)]
pub struct GraphOptions {
    pub branch_filter: BranchFilter,
    pub label_max_len: usize,
    pub first_parent: bool,
    pub show_stats: bool,
}

impl Default for GraphOptions {
    fn default() -> (r: Self)
        ensures
            r.branch_filter == BranchFilter::All,
            r.label_max_len == 24,
            !r.first_parent,
            r.show_stats,
    {
        GraphOptions { branch_filter: BranchFilter::All, label_max_len: 24, first_parent: false, show_stats: true }
    }
}

/// Files and diff of the commit opened from the graph.
#[derive(Debug)]
pub struct CommitDetail {
    pub oid: String,
    pub message: String,
    /// `(status, path)` of each changed file.
    pub files: Vec<(String, String)>,
    pub file_selected: Option<usize>,
    pub diff_content: Option<String>,
    pub diff_scroll: u16,
    pub msg_scroll: u16,
    /// First file row on screen (kept by the renderer).
    pub file_offset: usize,
    /// Where the commit message was last drawn.
    pub msg_area: Area,
    /// Where the file list was last drawn.
    pub file_list_area: Area,
}

/// What the panel asks for after an input event.
#[derive(Debug)]
pub enum GraphRequest {
    Nothing,
    /// Load the files of commit `oid` of the repository at `repo_path`.
    ShowCommitFiles { repo_path: String, oid: String },
    /// Load the diff of `file_path` in commit `oid`.
    ShowCommitDiff { repo_path: String, oid: String, file_path: String },
    /// Rebuild the graph of the shown repository.
    Reload,
}

/// The commit-graph panel.
#[derive(Debug)]
pub struct GitGraph {
    /// Shown rows while some segment is folded.
    pub rows: Vec<GraphRow>,
    /// All rows from the graph builder.
    pub all_rows: Vec<GraphRow>,
    /// Ids of the folded segments.
    pub collapsed_branches: Vec<String>,
    pub segments: Vec<BranchSegment>,
    pub selected: Option<usize>,
    /// First list row on screen (kept by the renderer).
    pub offset: usize,
    pub repo_name: String,
    pub repo_path: Option<String>,
    pub loading: bool,
    pub error: Option<String>,
    pub focused: bool,
    /// Where the panel was last drawn.
    pub render_area: Area,
    /// Where the commit list was last drawn.
    pub graph_list_area: Area,
    /// Where the detail's file list was last drawn.
    pub files_area: Area,
    /// Where the detail's diff was last drawn.
    pub diff_area: Area,
    pub commit_detail: Option<CommitDetail>,
    pub graph_options: GraphOptions,
    pub search: SearchState,
    /// Characters scrolled off the left edge.
    pub h_scroll: usize,
    pub horizontal_layout: bool,
    /// A reload arrived while the detail pane was open.
    pub needs_reload: bool,
    /// Counter that tells stale graph loads apart.
    pub load_generation: u64,
    /// Counter that tells stale detail loads apart.
    pub detail_generation: u64,
    /// Diff statistics already computed, by commit.
    pub diff_stat_cache: Vec<(Oid, DiffStat)>,
    /// Commits whose statistics are being computed.
    pub pending_diff_stats: Vec<Oid>,
}

/// Statistic of the last entry for `id` among the first `n` pairs.
pub open spec fn last_stat(pairs: Seq<(Oid, DiffStat)>, id: Seq<char>, n: int) -> Option<DiffStat>
    decreases n,
{
    if n <= 0 {
        None
    } else if pairs[n - 1].0@ == id {
        Some(pairs[n - 1].1)
    } else {
        last_stat(pairs, id, n - 1)
    }
}

/// Statistic of the last row for `id` (among the first `n`) that has one.
pub open spec fn last_row_stat(rows: Seq<GraphRow>, id: Seq<char>, n: int) -> Option<DiffStat>
    decreases n,
{
    if n <= 0 {
        None
    } else if rows[n - 1].oid@ == id && rows[n - 1].diff_stat is Some {
        rows[n - 1].diff_stat
    } else {
        last_row_stat(rows, id, n - 1)
    }
}

/// Two row models that differ at most in their diff statistic.
pub open spec fn same_but_stat(a: RowView, b: RowView) -> bool {
    a == RowView { diff_stat: a.diff_stat, ..b }
}

/// Statistic a freshly loaded row keeps: its own, else that of an earlier
/// row for the same commit, else the cached one.
pub open spec fn carried_stat(row: GraphRow, old_rows: Seq<GraphRow>, cache: Seq<(Oid, DiffStat)>) -> Option<DiffStat> {
    match row.diff_stat {
        Some(s) => Some(s),
        None => match last_row_stat(old_rows, row.oid@, old_rows.len() as int) {
            Some(s) => Some(s),
            None => last_stat(cache, row.oid@, cache.len() as int),
        },
    }
}

/// Index of the first segment holding row `i`, or `segs.len()`.
pub open spec fn segment_of(segs: Seq<BranchSegment>, i: int, s: int) -> int
    decreases segs.len() - s,
{
    if s < 0 || s >= segs.len() {
        segs.len() as int
    } else if segs[s].row_indices@.contains(i as usize) {
        s
    } else {
        segment_of(segs, i, s + 1)
    }
}

/// Index of the first row for commit `id`, or `rows.len()`.
pub open spec fn row_of(rows: Seq<GraphRow>, id: Seq<char>, i: int) -> int
    decreases rows.len() - i,
{
    if i < 0 || i >= rows.len() {
        rows.len() as int
    } else if rows[i].oid@ == id {
        i
    } else {
        row_of(rows, id, i + 1)
    }
}

/// `collapsed` with `id` added when absent.
pub open spec fn set_insert(collapsed: Seq<Seq<char>>, id: Seq<char>) -> Seq<Seq<char>> {
    if collapsed.contains(id) { collapsed } else { collapsed.push(id) }
}

/// What taking freshly built rows does to the panel.
pub open spec fn took_rows(before: GitGraph, after: GitGraph, rows: Seq<GraphRow>) -> bool {
    &&& after.all_rows@.len() == rows.len()
    &&& forall|i: int|
        0 <= i < rows.len() ==> same_but_stat(#[trigger] after.all_rows@[i]@, rows[i]@)
            && after.all_rows@[i].diff_stat == carried_stat(
            rows[i],
            before.all_rows@,
            before.diff_stat_cache@,
        )
    &&& !after.loading
    &&& after.collapsed_branches == before.collapsed_branches
    &&& after.selected == preserve_or_first_spec(before.selected, after.shown().len())
    &&& after.offset == (if after.selected is None { 0 } else { before.offset })
    &&& after.search == before.search
    &&& after.diff_stat_cache == before.diff_stat_cache
    &&& after == (GitGraph {
        rows: after.rows,
        all_rows: after.all_rows,
        segments: after.segments,
        selected: after.selected,
        offset: after.offset,
        loading: false,
        ..before
    })
}

/// What recording computed diff statistics does to the panel.
pub open spec fn took_diff_stats(before: GitGraph, after: GitGraph, stats: Seq<(Oid, DiffStat)>) -> bool {
    &&& after.all_rows@.len() == before.all_rows@.len()
    &&& forall|i: int|
        0 <= i < before.all_rows@.len() ==> same_but_stat(
            #[trigger] after.all_rows@[i]@,
            before.all_rows@[i]@,
        ) && after.all_rows@[i].diff_stat == match last_stat(
            stats,
            before.all_rows@[i].oid@,
            stats.len() as int,
        ) {
            Some(s) => Some(s),
            None => before.all_rows@[i].diff_stat,
        }
    &&& after.diff_stat_cache@ == before.diff_stat_cache@ + stats
    &&& after.pending_diff_stats@ == before.pending_diff_stats@.filter(
        |o: Oid| last_stat(stats, o@, stats.len() as int) is None,
    )
    &&& after == (GitGraph {
        rows: after.rows,
        all_rows: after.all_rows,
        segments: after.segments,
        diff_stat_cache: after.diff_stat_cache,
        pending_diff_stats: after.pending_diff_stats,
        ..before
    })
}

/// What marking the pushed commits does to the panel.
pub open spec fn took_pushed_oids(before: GitGraph, after: GitGraph, oids: Seq<Oid>) -> bool {
    &&& after.all_rows@.len() == before.all_rows@.len()
    &&& forall|i: int|
        0 <= i < before.all_rows@.len() ==> #[trigger] after.all_rows@[i]@ == (RowView {
            is_pushed: oids_hold(oids, before.all_rows@[i].oid@),
            ..before.all_rows@[i]@
        })
    &&& after == (GitGraph {
        all_rows: after.all_rows,
        rows: after.rows,
        segments: after.segments,
        ..before
    })
}

impl GitGraph {
    /// Rows on screen: all rows, or the folded rows when a segment is folded.
    pub open spec fn shown(&self) -> Seq<GraphRow> {
        if self.collapsed_branches@.len() == 0 { self.all_rows@ } else { self.rows@ }
    }

    /// Segments and folded rows agree with the loaded rows.
    pub open spec fn wf(&self) -> bool {
        &&& segments_spec(self.all_rows@, self.segments@)
        &&& segments_nonempty(self.segments@)
        &&& self.collapsed_branches@.len() > 0 ==> collapsed_rows_spec(
            self.all_rows@,
            self.segments@,
            self.collapsed_branches@,
            self.rows@,
        )
    }

    /// An empty panel.
    pub fn new() -> (r: Self)
        ensures
            r.wf(),
            r.all_rows@.len() == 0,
            r.shown().len() == 0,
            r.collapsed_branches@.len() == 0,
            r.selected is None,
            !r.loading,
            r.error is None,
            r.commit_detail is None,
            r.load_generation == 0,
            r.detail_generation == 0,
            r.rows@.len() == 0,
            r.segments@.len() == 0,
            r.offset == 0,
            r.repo_name@.len() == 0,
            r.repo_path is None,
            !r.focused,
            r.render_area == (Area { x: 0, y: 0, width: 0, height: 0 }),
            r.graph_list_area == r.render_area && r.files_area == r.render_area && r.diff_area == r.render_area,
            r.graph_options == (GraphOptions { branch_filter: BranchFilter::All, label_max_len: 24, first_parent: false, show_stats: true }),
            !r.search.visible && r.search.input@.len() == 0 && r.search.matches@.len() == 0 && r.search.current_match is None,
            r.h_scroll == 0,
            !r.horizontal_layout,
            !r.needs_reload,
            r.diff_stat_cache@.len() == 0,
            r.pending_diff_stats@.len() == 0,
    {
        let all_rows: Vec<GraphRow> = Vec::new();
        let segments = compute_branch_segments(&all_rows);
        proof {
            assert(segments@.len() == 0) by {
                if segments@.len() > 0 {
                    assert(segments@[0].row_indices@.len() >= 1);
                    assert(crate::segments::side_row(all_rows@, segments@[0].row_indices@[0] as int));
                }
            }
        }
        GitGraph {
            rows: Vec::new(),
            all_rows,
            collapsed_branches: Vec::new(),
            segments,
            selected: None,
            offset: 0,
            repo_name: String::new(),
            repo_path: None,
            loading: false,
            error: None,
            focused: false,
            render_area: Area { x: 0, y: 0, width: 0, height: 0 },
            graph_list_area: Area { x: 0, y: 0, width: 0, height: 0 },
            files_area: Area { x: 0, y: 0, width: 0, height: 0 },
            diff_area: Area { x: 0, y: 0, width: 0, height: 0 },
            commit_detail: None,
            graph_options: GraphOptions::default(),
            search: SearchState::new(),
            h_scroll: 0,
            horizontal_layout: false,
            needs_reload: false,
            load_generation: 0,
            detail_generation: 0,
            diff_stat_cache: Vec::new(),
            pending_diff_stats: Vec::new(),
        }
    }

    /// Shows a load failure.
    pub fn set_error(&mut self, msg: String)
        ensures
            *final(self) == (GitGraph { error: Some(msg), loading: false, ..*old(self) }),
    {
        self.error = Some(msg);
        self.loading = false;
    }

    /// The rows on screen.
    pub fn display_rows(&self) -> (r: &Vec<GraphRow>)
        ensures
            r@ == self.shown(),
    {
        if self.collapsed_branches.len() == 0 {
            &self.all_rows
        } else {
            &self.rows
        }
    }

    /// Recomputes the folded rows from all rows.
    pub fn recompute_collapsed_rows(&mut self)
        requires
            segments_nonempty(old(self).segments@),
        ensures
            final(self).collapsed_branches@.len() > 0 ==> collapsed_rows_spec(
                final(self).all_rows@,
                final(self).segments@,
                final(self).collapsed_branches@,
                final(self).rows@,
            ),
            final(self).collapsed_branches@.len() == 0 ==> final(self).rows@.len() == 0,
            *final(self) == (GitGraph { rows: final(self).rows, ..*old(self) }),
    {
        if self.collapsed_branches.len() == 0 {
            self.rows = Vec::new();
            return;
        }
        self.rows = collapsed_rows(&self.all_rows, &self.segments, &self.collapsed_branches);
    }

    /// Recomputes the branch segments from all rows.
    pub fn recompute_segments(&mut self)
        ensures
            segments_spec(final(self).all_rows@, final(self).segments@),
            segments_nonempty(final(self).segments@),
            *final(self) == (GitGraph { segments: final(self).segments, ..*old(self) }),
    {
        self.segments = compute_branch_segments(&self.all_rows);
    }

    /// Takes freshly built rows: each row without statistics gets those of
    /// the earlier row for the same commit or from the cache; segments and
    /// folded rows are recomputed; the selection stays put, clamped to the
    /// rows, or goes to the first row.
    pub fn set_rows(&mut self, rows: Vec<GraphRow>)
        ensures
            final(self).wf(),
            took_rows(*old(self), *final(self), rows@),
    {
        let prev_selected = self.selected;
        let mut new_rows: Vec<GraphRow> = Vec::new();
        let mut i: usize = 0;
        while i < rows.len()
            invariant
                i <= rows@.len(),
                self.all_rows == old(self).all_rows,
                self.diff_stat_cache == old(self).diff_stat_cache,
                new_rows@.len() == i,
                forall|j: int|
                    0 <= j < i ==> same_but_stat(#[trigger] new_rows@[j]@, rows@[j]@) && new_rows@[j].diff_stat
                        == carried_stat(rows@[j], old(self).all_rows@, old(self).diff_stat_cache@),
            decreases rows@.len() - i,
        {
            let mut row = rows[i].duplicate();
            if row.diff_stat.is_none() {
                let from_rows = last_row_stat_exec(&self.all_rows, &row.oid);
                row.diff_stat = match from_rows {
                    Some(s) => Some(s),
                    None => last_stat_exec(&self.diff_stat_cache, &row.oid),
                };
            }
            let ghost pushed = row;
            new_rows.push(row);
            assert(new_rows@[i as int] == pushed);
            assert(same_but_stat(new_rows@[i as int]@, rows@[i as int]@));
            i = i + 1;
        }
        self.all_rows = new_rows;
        self.loading = false;
        self.recompute_segments();
        self.recompute_collapsed_rows();
        let n = self.display_rows().len();
        self.selected = preserve_or_first(prev_selected, n);
        if self.selected.is_none() {
            self.offset = 0;
        }
    }

    /// Records computed diff statistics: they leave the pending set, enter
    /// the cache, and are shown on every row of their commit.
    pub fn set_diff_stats(&mut self, stats: Vec<(Oid, DiffStat)>)
        ensures
            final(self).wf(),
            took_diff_stats(*old(self), *final(self), stats@),
    {
        let ghost pred = |o: Oid| last_stat(stats@, o@, stats@.len() as int) is None;
        let mut pending: Vec<Oid> = Vec::new();
        let mut p: usize = 0;
        while p < self.pending_diff_stats.len()
            invariant
                p <= self.pending_diff_stats@.len(),
                *self == *old(self),
                pred == (|o: Oid| last_stat(stats@, o@, stats@.len() as int) is None),
                pending@ == self.pending_diff_stats@.take(p as int).filter(pred),
            decreases self.pending_diff_stats@.len() - p,
        {
            let o = &self.pending_diff_stats[p];
            proof {
                let a = self.pending_diff_stats@.take(p as int);
                assert(self.pending_diff_stats@.take(p + 1) =~= a.push(*o));
                a.lemma_filter_push(*o, pred);
            }
            if last_stat_exec(&stats, o).is_none() {
                pending.push(o.clone());
            }
            p = p + 1;
        }
        assert(self.pending_diff_stats@.take(p as int) =~= self.pending_diff_stats@);
        self.pending_diff_stats = pending;
        let mut r: usize = 0;
        let n = self.all_rows.len();
        let ghost old_rows = self.all_rows@;
        let ghost pend = self.pending_diff_stats;
        while r < n
            invariant
                self.pending_diff_stats == pend,
                pend@ == old(self).pending_diff_stats@.filter(pred),
                pred == (|o: Oid| last_stat(stats@, o@, stats@.len() as int) is None),
                *self == (GitGraph { all_rows: self.all_rows, pending_diff_stats: pend, ..*old(self) }),
                n == self.all_rows@.len(),
                n == old_rows.len(),
                r <= n,
                forall|i: int|
                    0 <= i < n ==> same_but_stat(#[trigger] self.all_rows@[i]@, old_rows[i]@),
                forall|i: int|
                    0 <= i < r ==> #[trigger] self.all_rows@[i].diff_stat == match last_stat(
                        stats@,
                        old_rows[i].oid@,
                        stats@.len() as int,
                    ) {
                        Some(s) => Some(s),
                        None => old_rows[i].diff_stat,
                    },
                forall|i: int| r <= i < n ==> #[trigger] self.all_rows@[i] == old_rows[i],
            decreases n - r,
        {
            let found = last_stat_exec(&stats, &self.all_rows[r].oid);
            match found {
                Some(s) => {
                    let mut row = self.all_rows[r].duplicate();
                    row.diff_stat = Some(s);
                    self.all_rows.set(r, row);
                },
                None => {},
            }
            r = r + 1;
        }
        let ghost st = stats@;
        let mut more = stats;
        self.diff_stat_cache.append(&mut more);
        assert(self.diff_stat_cache@ == old(self).diff_stat_cache@ + st);
        self.recompute_segments();
        self.recompute_collapsed_rows();
    }
}

/// Last statistic for `id` among `pairs`.
fn last_stat_exec(pairs: &Vec<(Oid, DiffStat)>, id: &Oid) -> (r: Option<DiffStat>)
    ensures
        r == last_stat(pairs@, id@, pairs@.len() as int),
{
    let mut n = pairs.len();
    while n > 0
        invariant
            n <= pairs@.len(),
            last_stat(pairs@, id@, pairs@.len() as int) == last_stat(pairs@, id@, n as int),
        decreases n,
    {
        if pairs[n - 1].0.same(id) {
            return Some(pairs[n - 1].1);
        }
        n = n - 1;
    }
    None
}

/// Statistic of the last row for `id` that has one.
fn last_row_stat_exec(rows: &Vec<GraphRow>, id: &Oid) -> (r: Option<DiffStat>)
    ensures
        r == last_row_stat(rows@, id@, rows@.len() as int),
{
    let mut n = rows.len();
    while n > 0
        invariant
            n <= rows@.len(),
            last_row_stat(rows@, id@, rows@.len() as int) == last_row_stat(rows@, id@, n as int),
        decreases n,
    {
        if rows[n - 1].oid.same(id) && rows[n - 1].diff_stat.is_some() {
            return rows[n - 1].diff_stat;
        }
        n = n - 1;
    }
    None
}

/// The selection kept after the rows change.
pub open spec fn preserve_or_first_spec(previous: Option<usize>, len: nat) -> Option<usize> {
    if len == 0 {
        None
    } else {
        match previous {
            Some(i) => Some(if i < len { i } else { (len - 1) as usize }),
            None => Some(0usize),
        }
    }
}

/// Whether `oids` holds commit `id`.
pub open spec fn oids_hold(oids: Seq<Oid>, id: Seq<char>) -> bool {
    exists|k: int| 0 <= k < oids.len() && (#[trigger] oids[k])@ == id
}

fn oids_hold_exec(oids: &Vec<Oid>, id: &Oid) -> (r: bool)
    ensures
        r == oids_hold(oids@, id@),
{
    let mut k: usize = 0;
    while k < oids.len()
        invariant
            k <= oids@.len(),
            forall|j: int| 0 <= j < k ==> (#[trigger] oids@[j])@ != id@,
        decreases oids@.len() - k,
    {
        if oids[k].same(id) {
            return true;
        }
        k = k + 1;
    }
    false
}

fn segment_of_exec(segs: &Vec<BranchSegment>, i: usize) -> (r: usize)
    ensures
        r == segment_of(segs@, i as int, 0),
        r <= segs@.len(),
{
    let mut s: usize = 0;
    while s < segs.len()
        invariant
            s <= segs@.len(),
            segment_of(segs@, i as int, 0) == segment_of(segs@, i as int, s as int),
        decreases segs@.len() - s,
    {
        let ri = &segs[s].row_indices;
        let mut k: usize = 0;
        while k < ri.len()
            invariant
                s < segs@.len(),
                ri@ == segs@[s as int].row_indices@,
                segment_of(segs@, i as int, 0) == segment_of(segs@, i as int, s as int),
                k <= ri@.len(),
                forall|j: int| 0 <= j < k ==> ri@[j] != i,
            decreases ri@.len() - k,
        {
            if ri[k] == i {
                assert(ri@.contains(i));
                return s;
            }
            k = k + 1;
        }
        assert(!segs@[s as int].row_indices@.contains(i));
        s = s + 1;
    }
    s
}

fn row_of_exec(rows: &Vec<GraphRow>, id: &Oid) -> (r: usize)
    ensures
        r == row_of(rows@, id@, 0),
        r <= rows@.len(),
{
    let mut i: usize = 0;
    while i < rows.len()
        invariant
            i <= rows@.len(),
            row_of(rows@, id@, 0) == row_of(rows@, id@, i as int),
        decreases rows@.len() - i,
    {
        if rows[i].oid.same(id) {
            return i;
        }
        i = i + 1;
    }
    i
}

/// `v` without the strings equal to `s`.
fn remove_string(v: &Vec<String>, s: &str) -> (r: Vec<String>)
    ensures
        string_views(r@) == string_views(v@).filter(|x: Seq<char>| x != s@),
{
    let mut out: Vec<String> = Vec::new();
    let mut i: usize = 0;
    let ghost pred = |x: Seq<char>| x != s@;
    while i < v.len()
        invariant
            i <= v@.len(),
            string_views(out@) == string_views(v@.take(i as int)).filter(pred),
            pred == (|x: Seq<char>| x != s@),
        decreases v@.len() - i,
    {
        let keep = !str_eq(v[i].as_str(), s);
        proof {
            let a = v@.take(i as int);
            let x = v@[i as int];
            assert(v@.take(i + 1) =~= a.push(x));
            assert(string_views(a.push(x)) =~= string_views(a).push(x@));
            string_views(a).lemma_filter_push(x@, pred);
        }
        if keep {
            out.push(v[i].clone());
            assert(string_views(out@) =~= string_views(v@.take(i as int)).filter(pred).push(v@[i as int]@));
        }
        i = i + 1;
    }
    assert(v@.take(v@.len() as int) =~= v@);
    out
}

/// Text copied for the selection: a selected file of the open commit, else
/// `short-id message` of the selected row.
pub open spec fn selected_text_spec(g: GitGraph) -> Option<Seq<char>> {
    let from_file = match g.commit_detail {
        Some(d) => match d.file_selected {
            Some(i) => if i < d.files@.len() { Some(d.files@[i as int].1@) } else { None },
            None => None,
        },
        None => None,
    };
    match from_file {
        Some(p) => Some(p),
        None => match g.selected {
            Some(i) => if i < g.shown().len() {
                Some(g.shown()[i as int].short_id@ + seq![' '] + g.shown()[i as int].message@)
            } else {
                None
            },
            None => None,
        },
    }
}

impl GitGraph {
    /// Marks each row pushed exactly when its commit is in `oids`.
    pub fn set_pushed_oids(&mut self, oids: Vec<Oid>)
        ensures
            final(self).wf(),
            took_pushed_oids(*old(self), *final(self), oids@),
    {
        let n = self.all_rows.len();
        let mut r: usize = 0;
        let ghost old_rows = self.all_rows@;
        while r < n
            invariant
                n == self.all_rows@.len(),
                n == old_rows.len(),
                r <= n,
                *self == (GitGraph { all_rows: self.all_rows, ..*old(self) }),
                forall|i: int|
                    0 <= i < r ==> #[trigger] self.all_rows@[i]@ == (RowView {
                        is_pushed: oids_hold(oids@, old_rows[i].oid@),
                        ..old_rows[i]@
                    }),
                forall|i: int| r <= i < n ==> #[trigger] self.all_rows@[i] == old_rows[i],
            decreases n - r,
        {
            let mut row = self.all_rows[r].duplicate();
            row.is_pushed = oids_hold_exec(&oids, &row.oid);
            self.all_rows.set(r, row);
            r = r + 1;
        }
        self.recompute_segments();
        self.recompute_collapsed_rows();
    }

    /// `after` is this panel with the selected row's segment folded, or the
    /// selected placeholder unfolded; a row on the main trunk folds nothing.
    pub open spec fn collapse_toggled(self, after: GitGraph) -> bool {
        &&& after.wf()
        &&& after == (GitGraph { rows: after.rows, collapsed_branches: after.collapsed_branches, ..self })
        &&& {
                let sh = self.shown();
                let cb = string_views(self.collapsed_branches@);
                match self.selected {
                    Some(idx) => if idx < sh.len() {
                        match sh[idx as int].collapsed {
                            Some((key, _)) => string_views(after.collapsed_branches@) == cb.filter(
                                |x: Seq<char>| x != key@,
                            ),
                            None => {
                                let a = row_of(self.all_rows@, sh[idx as int].oid@, 0);
                                let s = if a < self.all_rows@.len() {
                                    segment_of(self.segments@, a, 0)
                                } else {
                                    self.segments@.len() as int
                                };
                                if s < self.segments@.len() {
                                    string_views(after.collapsed_branches@) == set_insert(cb, self.segments@[s].id@)
                                } else {
                                    after.collapsed_branches == self.collapsed_branches
                                }
                            },
                        }
                    } else {
                        after.collapsed_branches == self.collapsed_branches
                    },
                    None => after.collapsed_branches == self.collapsed_branches,
                }
        }
    }

    /// Folds the segment of the selected row, or unfolds the selected
    /// placeholder; rows on the main trunk cannot be folded.
    pub fn toggle_collapse_selected(&mut self)
        requires
            old(self).wf(),
        ensures
            old(self).collapse_toggled(*final(self)),
    {
        let idx = match self.selected {
            Some(i) => i,
            None => return,
        };
        if idx >= self.display_rows().len() {
            return;
        }
        let key: Option<String> = match &self.display_rows()[idx].collapsed {
            Some((k, _)) => Some(k.clone()),
            None => None,
        };
        let row_oid = self.display_rows()[idx].oid.clone();
        match key {
            Some(k) => {
                self.collapsed_branches = remove_string(&self.collapsed_branches, k.as_str());
                self.recompute_collapsed_rows();
            },
            None => {
                let all_idx = row_of_exec(&self.all_rows, &row_oid);
                if all_idx >= self.all_rows.len() {
                    return;
                }
                let seg_idx = segment_of_exec(&self.segments, all_idx);
                if seg_idx >= self.segments.len() {
                    return;
                }
                let id = self.segments[seg_idx].id.clone();
                if !crate::text::contains_string(&self.collapsed_branches, id.as_str()) {
                    self.collapsed_branches.push(id);
                    assert(string_views(self.collapsed_branches@) =~= string_views(old(self).collapsed_branches@).push(
                        old(self).segments@[seg_idx as int].id@,
                    ));
                }
                self.recompute_collapsed_rows();
            },
        }
    }

    /// `after` is this panel with every segment unfolded.
    pub open spec fn unfolded_all(self, after: GitGraph) -> bool {
        &&& after.wf()
        &&& after.collapsed_branches@.len() == 0
        &&& after == (GitGraph { rows: after.rows, collapsed_branches: after.collapsed_branches, ..self })
    }

    /// Unfolds every segment.
    pub fn expand_all_branches(&mut self)
        requires
            old(self).wf(),
        ensures
            old(self).unfolded_all(*final(self)),
    {
        if self.collapsed_branches.len() == 0 {
            return;
        }
        self.collapsed_branches = Vec::new();
        self.recompute_collapsed_rows();
    }

    /// Text to copy for the current selection.
    pub fn selected_text(&self) -> (r: Option<String>)
        ensures
            match r {
                Some(t) => selected_text_spec(*self) == Some(t@),
                None => selected_text_spec(*self) is None,
            },
    {
        match &self.commit_detail {
            Some(d) => match d.file_selected {
                Some(i) => if i < d.files.len() {
                    return Some(d.files[i].1.clone());
                },
                None => {},
            },
            None => {},
        }
        let idx = match self.selected {
            Some(i) => i,
            None => return None,
        };
        let rows = self.display_rows();
        if idx >= rows.len() {
            return None;
        }
        let mut t = rows[idx].short_id.clone();
        push_char(&mut t, ' ');
        push_str(&mut t, rows[idx].message.as_str());
        assert(t@ =~= rows@[idx as int].short_id@ + seq![' '] + rows@[idx as int].message@);
        Some(t)
    }

    /// Whether the search box is open.
    pub fn search_visible(&self) -> (r: bool)
        ensures
            r == self.search.visible,
    {
        self.search.visible
    }

    /// Searches the shown rows for the current query.
    pub fn update_search_matches(&mut self)
        ensures
            final(self).search.matches@ == matching_rows_spec(old(self).search.input@, old(self).shown()),
            final(self).search.current_match == (if final(self).search.matches@.len() > 0 {
                Some(0usize)
            } else {
                None
            }),
            final(self).search.input == old(self).search.input,
            final(self).search.visible == old(self).search.visible,
            *final(self) == (GitGraph { search: final(self).search, ..*old(self) }),
    {
        let matches = matching_rows(self.search.input.as_str(), self.display_rows());
        self.search.set_matches(matches);
    }

    /// The panel after moving to the next match (wrapping around).
    pub open spec fn after_search_next(self) -> GitGraph {
        let n = self.search.matches@.len();
        if n == 0 {
            self
        } else {
            let next: int = match self.search.current_match {
                Some(i) => (i + 1) % (n as int),
                None => 0,
            };
            GitGraph {
                selected: Some(self.search.matches@[next]),
                search: SearchState { current_match: Some(next as usize), ..self.search },
                ..self
            }
        }
    }

    /// The panel after moving to the previous match (wrapping around).
    pub open spec fn after_search_prev(self) -> GitGraph {
        let n = self.search.matches@.len();
        if n == 0 {
            self
        } else {
            let prev: int = match self.search.current_match {
                Some(i) => if i == 0 { n - 1 } else { i - 1 },
                None => n - 1,
            };
            GitGraph {
                selected: Some(self.search.matches@[prev]),
                search: SearchState { current_match: Some(prev as usize), ..self.search },
                ..self
            }
        }
    }

    /// Selects the next match.
    pub fn search_next(&mut self)
        ensures
            *final(self) == old(self).after_search_next(),
    {
        match self.search.next_match() {
            Some(idx) => self.selected = Some(idx),
            None => {},
        }
    }

    /// Selects the previous match.
    pub fn search_prev(&mut self)
        requires
            old(self).search.current_match matches Some(i) ==> i <= old(self).search.matches@.len(),
        ensures
            *final(self) == old(self).after_search_prev(),
    {
        match self.search.prev_match() {
            Some(idx) => self.selected = Some(idx),
            None => {},
        }
    }

    /// A key typed into the search box: Esc closes it; Enter closes it and
    /// jumps to the first match; Backspace and characters edit the query and
    /// search again.
    pub fn handle_search_key(&mut self, key: KeyEvent)
        ensures
            key.code == KeyCode::Esc ==> !final(self).search.visible && final(self).search.input
                == old(self).search.input && final(self).selected == old(self).selected,
            key.code == KeyCode::Enter ==> !final(self).search.visible && (if old(self).search.matches@.len() > 0 {
                final(self).search.current_match == Some(0usize) && final(self).selected == Some(
                    old(self).search.matches@[0],
                )
            } else {
                final(self).selected == old(self).selected
            }),
            key.code == KeyCode::Backspace ==> final(self).search.input@ == (if old(self).search.input@.len() > 0 {
                old(self).search.input@.drop_last()
            } else {
                old(self).search.input@
            }) && final(self).search.matches@ == matching_rows_spec(final(self).search.input@, old(self).shown()),
            (key.code matches KeyCode::Char(c) ==> final(self).search.input@ == old(self).search.input@.push(c)
                && final(self).search.matches@ == matching_rows_spec(final(self).search.input@, old(self).shown())),
            final(self).all_rows == old(self).all_rows,
            final(self).collapsed_branches == old(self).collapsed_branches,
    {
        match key.code {
            KeyCode::Esc => {
                self.search.visible = false;
            },
            KeyCode::Enter => {
                self.search.visible = false;
                if self.search.matches.len() > 0 {
                    self.search.current_match = Some(0);
                    self.selected = Some(self.search.matches[0]);
                }
            },
            KeyCode::Backspace => {
                let v = crate::text::str_chars(self.search.input.as_str());
                let n = v.len();
                if n > 0 {
                    let w = crate::text::sub_chars(v.as_slice(), 0, n - 1);
                    assert(w@ =~= v@.drop_last());
                    self.search.input = crate::text::chars_to_string(w.as_slice());
                }
                self.update_search_matches();
            },
            KeyCode::Char(c) => {
                push_char(&mut self.search.input, c);
                self.update_search_matches();
            },
            _ => {},
        }
    }

    /// Whether a commit's files are open.
    pub fn has_detail(&self) -> (r: bool)
        ensures
            r == (self.commit_detail is Some),
    {
        self.commit_detail.is_some()
    }

    /// Asks for a reload once the detail pane closes.
    pub fn set_needs_reload(&mut self)
        ensures
            *final(self) == (GitGraph { needs_reload: true, ..*old(self) }),
    {
        self.needs_reload = true;
    }

    /// Generation of the latest graph load.
    pub fn current_generation(&self) -> (r: u64)
        ensures
            r == self.load_generation,
    {
        self.load_generation
    }

    /// Generation of the latest detail load.
    pub fn current_detail_generation(&self) -> (r: u64)
        ensures
            r == self.detail_generation,
    {
        self.detail_generation
    }

    /// Opens the files of a commit, the first file selected.
    pub fn set_commit_files(&mut self, oid: String, message: String, files: Vec<(String, String)>)
        ensures
            final(self).commit_detail matches Some(d) && d.oid == oid && d.message == message && d.files == files
                && d.file_selected == (if files@.len() > 0 { Some(0usize) } else { None }) && d.diff_content is None
                && d.diff_scroll == 0 && d.msg_scroll == 0 && d.file_offset == 0,
            *final(self) == (GitGraph { commit_detail: final(self).commit_detail, ..*old(self) }),
    {
        let file_selected = if files.len() > 0 {
            Some(0)
        } else {
            None
        };
        self.commit_detail = Some(
            CommitDetail {
                oid,
                message,
                files,
                file_selected,
                diff_content: None,
                diff_scroll: 0,
                msg_scroll: 0,
                file_offset: 0,
                msg_area: Area { x: 0, y: 0, width: 0, height: 0 },
                file_list_area: Area { x: 0, y: 0, width: 0, height: 0 },
            },
        );
    }

    /// Takes rows built by graph load `generation` if that is still the
    /// latest load; a superseded result leaves the panel as it was.
    pub fn set_rows_if_current(&mut self, generation: u64, rows: Vec<GraphRow>) -> (applied: bool)
        ensures
            applied == (generation == old(self).load_generation),
            applied ==> final(self).wf() && took_rows(*old(self), *final(self), rows@),
            !applied ==> *final(self) == *old(self),
    {
        if generation == self.load_generation {
            self.set_rows(rows);
            true
        } else {
            false
        }
    }

    /// Marks the pushed commits found by graph load `generation` if that is
    /// still the latest load; a superseded result leaves the panel as it was.
    pub fn set_pushed_oids_if_current(&mut self, generation: u64, oids: Vec<Oid>) -> (applied: bool)
        ensures
            applied == (generation == old(self).load_generation),
            applied ==> final(self).wf() && took_pushed_oids(*old(self), *final(self), oids@),
            !applied ==> *final(self) == *old(self),
    {
        if generation == self.load_generation {
            self.set_pushed_oids(oids);
            true
        } else {
            false
        }
    }

    /// Records the statistics computed for graph load `generation` if that
    /// is still the latest load; a superseded result leaves the panel as it
    /// was.
    pub fn set_diff_stats_if_current(&mut self, generation: u64, stats: Vec<(Oid, DiffStat)>) -> (applied: bool)
        ensures
            applied == (generation == old(self).load_generation),
            applied ==> final(self).wf() && took_diff_stats(*old(self), *final(self), stats@),
            !applied ==> *final(self) == *old(self),
    {
        if generation == self.load_generation {
            self.set_diff_stats(stats);
            true
        } else {
            false
        }
    }

    /// Opens the files of a commit loaded by detail request `generation` if
    /// that is still the latest request; otherwise nothing changes.
    pub fn set_commit_files_if_current(
        &mut self,
        generation: u64,
        oid: String,
        message: String,
        files: Vec<(String, String)>,
    ) -> (applied: bool)
        ensures
            applied == (generation == old(self).detail_generation),
            applied ==> (final(self).commit_detail matches Some(d) && d.oid == oid && d.message == message
                && d.files == files && d.file_selected == (if files@.len() > 0 { Some(0usize) } else { None })
                && d.diff_content is None && d.diff_scroll == 0 && d.msg_scroll == 0 && d.file_offset == 0),
            applied ==> *final(self) == (GitGraph { commit_detail: final(self).commit_detail, ..*old(self) }),
            !applied ==> *final(self) == *old(self),
    {
        if generation == self.detail_generation {
            self.set_commit_files(oid, message, files);
            true
        } else {
            false
        }
    }

    /// Shows a file diff loaded by detail request `generation` if that is
    /// still the latest request; otherwise nothing changes.
    pub fn set_commit_diff_if_current(&mut self, generation: u64, content: String) -> (applied: bool)
        ensures
            applied == (generation == old(self).detail_generation),
            applied ==> match old(self).commit_detail {
                Some(d) => final(self).commit_detail == Some(
                    CommitDetail { diff_content: Some(content), diff_scroll: 0, ..d },
                ),
                None => final(self).commit_detail is None,
            },
            applied ==> *final(self) == (GitGraph { commit_detail: final(self).commit_detail, ..*old(self) }),
            !applied ==> *final(self) == *old(self),
    {
        if generation == self.detail_generation {
            self.set_commit_diff(content);
            true
        } else {
            false
        }
    }

    /// Shows a file diff in the open commit, scrolled to the top.
    pub fn set_commit_diff(&mut self, content: String)
        ensures
            match old(self).commit_detail {
                Some(d) => final(self).commit_detail == Some(
                    CommitDetail { diff_content: Some(content), diff_scroll: 0, ..d },
                ),
                None => final(self).commit_detail is None,
            },
            *final(self) == (GitGraph { commit_detail: final(self).commit_detail, ..*old(self) }),
    {
        match self.commit_detail.take() {
            Some(d) => {
                self.commit_detail = Some(CommitDetail { diff_content: Some(content), diff_scroll: 0, ..d });
            },
            None => {},
        }
    }

    /// Starts loading the graph of the repository at `path`. Switching to
    /// another repository clears the panel; reloading the same one keeps
    /// the old rows on screen. With `can_send` (a channel to report the
    /// result on) the load generation advances and is returned.
    pub fn load_repo(&mut self, path: String, repo_name: String, can_send: bool) -> (r: Option<u64>)
        requires
            can_send ==> old(self).load_generation < u64::MAX,
        ensures
            final(self).repo_name == repo_name,
            final(self).repo_path == Some(path),
            final(self).error is None,
            (old(self).repo_path matches Some(p) && p@ == path@) ==> *final(self) == (GitGraph {
                repo_name: final(self).repo_name,
                repo_path: final(self).repo_path,
                error: None,
                load_generation: final(self).load_generation,
                ..*old(self)
            }),
            !(old(self).repo_path matches Some(p) && p@ == path@) ==> final(self).diff_stat_cache@.len() == 0
                && final(self).pending_diff_stats@.len() == 0 && !final(self).search.visible
                && final(self).search.matches@.len() == 0 && final(self).search.current_match is None
                && final(self).graph_options == old(self).graph_options && final(self).h_scroll == old(self).h_scroll
                && final(self).detail_generation == old(self).detail_generation,
            !(old(self).repo_path matches Some(p) && p@ == path@) ==> final(self).loading && final(self).all_rows@.len()
                == 0 && final(self).shown().len() == 0 && final(self).selected is None && final(self).offset == 0 && final(self).commit_detail is None
                && !final(self).needs_reload && final(self).collapsed_branches@.len() == 0 && final(self).wf(),
            can_send ==> r == Some((old(self).load_generation + 1) as u64) && final(self).load_generation == r->0,
            !can_send ==> r is None && final(self).load_generation == old(self).load_generation,
    {
        let same = match &self.repo_path {
            Some(p) => str_eq(p.as_str(), path.as_str()),
            None => false,
        };
        self.repo_name = repo_name;
        self.repo_path = Some(path);
        self.error = None;
        if !same {
            self.loading = true;
            self.rows = Vec::new();
            self.all_rows = Vec::new();
            self.selected = None;
            self.offset = 0;
            self.commit_detail = None;
            self.needs_reload = false;
            self.search.clear();
            self.collapsed_branches = Vec::new();
            self.recompute_segments();
            self.diff_stat_cache = Vec::new();
            self.pending_diff_stats = Vec::new();
        }
        if !can_send {
            return None;
        }
        self.load_generation = self.load_generation + 1;
        Some(self.load_generation)
    }

    /// Whether a pushed-status refresh for `path` concerns this panel.
    pub fn shows_repo(&self, path: &str) -> (r: bool)
        ensures
            r == (self.repo_path matches Some(p) && p@ == path@),
    {
        match &self.repo_path {
            Some(p) => str_eq(p.as_str(), path),
            None => false,
        }
    }
}

/// Keys that close the diff of a commit file: Esc, Left and `h`.
pub open spec fn closes_diff(code: KeyCode) -> bool {
    match code {
        KeyCode::Esc | KeyCode::Left => true,
        KeyCode::Char(c) => c == 'h',
        _ => false,
    }
}

/// A click in `area` can be mapped to a row without overflow.
pub open spec fn click_fits(area: Area, offset: usize) -> bool {
    &&& area.y < u16::MAX
    &&& area.x + area.width <= u16::MAX
    &&& offset + u16::MAX <= usize::MAX
}

/// `x + 4`, capped at the largest offset.
pub open spec fn scroll_right_spec(x: usize) -> usize {
    if x + 4 <= usize::MAX { (x + 4) as usize } else { usize::MAX }
}

/// `x - 4`, not below 0.
pub open spec fn scroll_left_spec(x: usize) -> usize {
    if x >= 4 { (x - 4) as usize } else { 0usize }
}

impl GitGraph {
    /// The panel with the detail generation advanced.
    pub open spec fn next_detail_generation(self) -> GitGraph {
        GitGraph { detail_generation: (self.detail_generation + 1) as u64, ..self }
    }

    /// Whether a commit is selected in a loaded repository.
    pub open spec fn can_show_commit_files(self) -> bool {
        &&& self.selected matches Some(i) && i < self.shown().len()
        &&& self.repo_path is Some
    }

    /// `r` asks for the files of the selected commit.
    pub open spec fn asks_commit_files(self, r: GraphRequest) -> bool {
        r matches GraphRequest::ShowCommitFiles { repo_path, oid } && Some(repo_path) == self.repo_path && oid@
            == self.shown()[self.selected->0 as int].oid@
    }

    /// The request for the diff of the selected file of the open commit.
    pub open spec fn commit_diff_request(self) -> Option<GraphRequest> {
        match (self.commit_detail, self.repo_path) {
            (Some(d), Some(p)) => match d.file_selected {
                Some(i) => if i < d.files@.len() {
                    Some(GraphRequest::ShowCommitDiff { repo_path: p, oid: d.oid, file_path: d.files@[i as int].1 })
                } else {
                    None
                },
                None => None,
            },
            _ => None,
        }
    }

    /// A reload when one was deferred and a repository is shown.
    pub open spec fn deferred_reload(self) -> GraphRequest {
        if self.needs_reload && self.repo_path is Some {
            GraphRequest::Reload
        } else {
            GraphRequest::Nothing
        }
    }

    /// The panel after the wheel turned up at (`col`, `row`): it scrolls
    /// the pane under the pointer, else moves the commit selection up.
    pub open spec fn after_wheel_up(self, col: u16, row: u16) -> GitGraph {
        match self.commit_detail {
            Some(d) => if area_contains_spec(self.diff_area, col, row) && d.diff_content is Some {
                GitGraph {
                    commit_detail: Some(
                        CommitDetail { diff_scroll: if d.diff_scroll > 0 { (d.diff_scroll - 1) as u16 } else { 0u16 }, ..d },
                    ),
                    ..self
                }
            } else if area_contains_spec(d.msg_area, col, row) {
                GitGraph {
                    commit_detail: Some(
                        CommitDetail { msg_scroll: if d.msg_scroll > 0 { (d.msg_scroll - 1) as u16 } else { 0u16 }, ..d },
                    ),
                    ..self
                }
            } else if area_contains_spec(d.file_list_area, col, row) && d.files@.len() > 0 {
                GitGraph {
                    commit_detail: Some(
                        CommitDetail { file_selected: select_prev_spec(d.file_selected, d.files@.len()), ..d },
                    ),
                    ..self
                }
            } else {
                GitGraph { selected: select_prev_spec(self.selected, self.shown().len()), ..self }
            },
            None => GitGraph { selected: select_prev_spec(self.selected, self.shown().len()), ..self },
        }
    }

    /// The panel after the wheel turned down at (`col`, `row`).
    pub open spec fn after_wheel_down(self, col: u16, row: u16) -> GitGraph {
        match self.commit_detail {
            Some(d) => if area_contains_spec(self.diff_area, col, row) && d.diff_content is Some {
                GitGraph {
                    commit_detail: Some(
                        CommitDetail {
                            diff_scroll: if d.diff_scroll < u16::MAX { (d.diff_scroll + 1) as u16 } else { u16::MAX },
                            ..d
                        },
                    ),
                    ..self
                }
            } else if area_contains_spec(d.msg_area, col, row) {
                GitGraph {
                    commit_detail: Some(
                        CommitDetail {
                            msg_scroll: if d.msg_scroll < u16::MAX { (d.msg_scroll + 1) as u16 } else { u16::MAX },
                            ..d
                        },
                    ),
                    ..self
                }
            } else if area_contains_spec(d.file_list_area, col, row) && d.files@.len() > 0 {
                GitGraph {
                    commit_detail: Some(
                        CommitDetail { file_selected: select_next_spec(d.file_selected, d.files@.len()), ..d },
                    ),
                    ..self
                }
            } else {
                GitGraph { selected: select_next_spec(self.selected, self.shown().len()), ..self }
            },
            None => GitGraph { selected: select_next_spec(self.selected, self.shown().len()), ..self },
        }
    }

    /// Asks for the files of the selected commit; the detail generation
    /// advances with each request.
    pub fn try_show_commit_files(&mut self) -> (r: GraphRequest)
        requires
            old(self).detail_generation < u64::MAX,
        ensures
            old(self).can_show_commit_files() ==> old(self).asks_commit_files(r) && *final(self)
                == old(self).next_detail_generation(),
            !old(self).can_show_commit_files() ==> r is Nothing && *final(self) == *old(self),
    {
        let idx = match self.selected {
            Some(i) => i,
            None => return GraphRequest::Nothing,
        };
        if idx >= self.display_rows().len() {
            return GraphRequest::Nothing;
        }
        let oid = self.display_rows()[idx].oid.to_hex();
        let repo_path = match &self.repo_path {
            Some(p) => p.clone(),
            None => return GraphRequest::Nothing,
        };
        self.detail_generation = self.detail_generation + 1;
        GraphRequest::ShowCommitFiles { repo_path, oid }
    }

    /// Asks for the diff of the selected file of the open commit; the
    /// detail generation advances with each request.
    pub fn try_show_commit_diff(&mut self) -> (r: GraphRequest)
        requires
            old(self).detail_generation < u64::MAX,
        ensures
            match old(self).commit_diff_request() {
                Some(req) => r == req && *final(self) == old(self).next_detail_generation(),
                None => r is Nothing && *final(self) == *old(self),
            },
    {
        let repo_path = match &self.repo_path {
            Some(p) => p.clone(),
            None => return GraphRequest::Nothing,
        };
        let req = match &self.commit_detail {
            Some(d) => match d.file_selected {
                Some(i) => if i < d.files.len() {
                    GraphRequest::ShowCommitDiff { repo_path, oid: d.oid.clone(), file_path: d.files[i].1.clone() }
                } else {
                    return GraphRequest::Nothing;
                },
                None => return GraphRequest::Nothing,
            },
            None => return GraphRequest::Nothing,
        };
        self.detail_generation = self.detail_generation + 1;
        req
    }

    /// Closes the commit detail; a deferred reload is asked for now.
    fn close_detail(&mut self) -> (r: GraphRequest)
        ensures
            *final(self) == (GitGraph { commit_detail: None, needs_reload: false, ..*old(self) }),
            r == old(self).deferred_reload(),
    {
        self.commit_detail = None;
        let reload = self.needs_reload;
        self.needs_reload = false;
        if reload && self.repo_path.is_some() {
            GraphRequest::Reload
        } else {
            GraphRequest::Nothing
        }
    }

    /// Handles a key. With a commit's files open: Esc closes them (and
    /// asks for a deferred reload), `j`/`k`/Down/Up move among the files
    /// and Enter asks for the selected file's diff; with that diff open,
    /// Esc/`h`/Left close it and `j`/`k`/Down/Up scroll it. Otherwise
    /// `n`/`N` step through search matches, `j`/`k`/Down/Up move the
    /// selection, `/` opens the search, Enter asks for the selected
    /// commit's files, `f` toggles first-parent mode and asks for a reload,
    /// `c` folds or unfolds, `H` unfolds everything, and `l`/Right and
    /// `h`/Left scroll sideways by four columns.
    pub fn handle_key_event(&mut self, key: KeyEvent) -> (r: GraphRequest)
        requires
            old(self).wf(),
            old(self).detail_generation < u64::MAX,
            old(self).search.current_match matches Some(i) ==> i <= old(self).search.matches@.len(),
        ensures
            final(self).wf(),
            match old(self).commit_detail {
                Some(d) => if d.diff_content is Some {
                    r is Nothing && *final(self) == (GitGraph {
                        commit_detail: Some(
                            if closes_diff(key.code) {
                                CommitDetail { diff_content: None, diff_scroll: 0, ..d }
                            } else {
                                CommitDetail { diff_scroll: scroll_after_key(d.diff_scroll, key), ..d }
                            },
                        ),
                        ..*old(self)
                    })
                } else if key.code == KeyCode::Esc {
                    r == old(self).deferred_reload() && *final(self) == (GitGraph {
                        commit_detail: None,
                        needs_reload: false,
                        ..*old(self)
                    })
                } else {
                    match vertical_key_spec(d.file_selected, d.files@.len() as usize, key) {
                        Some(sel) => r is Nothing && *final(self) == (GitGraph {
                            commit_detail: Some(
                                CommitDetail { file_selected: sel, file_offset: if sel is None { 0 } else { d.file_offset }, ..d },
                            ),
                            ..*old(self)
                        }),
                        None => if key.code == KeyCode::Enter {
                            match old(self).commit_diff_request() {
                                Some(req) => r == req && *final(self) == old(self).next_detail_generation(),
                                None => r is Nothing && *final(self) == *old(self),
                            }
                        } else {
                            r is Nothing && *final(self) == *old(self)
                        },
                    }
                },
                None => if key.code == KeyCode::Char('n') {
                    r is Nothing && *final(self) == old(self).after_search_next()
                } else if key.code == KeyCode::Char('N') {
                    r is Nothing && *final(self) == old(self).after_search_prev()
                } else {
                    match vertical_key_spec(old(self).selected, old(self).shown().len() as usize, key) {
                        Some(sel) => r is Nothing && *final(self) == (GitGraph {
                            selected: sel,
                            offset: if sel is None { 0 } else { old(self).offset },
                            ..*old(self)
                        }),
                        None => if key.code == KeyCode::Char('/') {
                            &&& r is Nothing
                            &&& final(self).search.visible
                            &&& final(self).search.input@.len() == 0
                            &&& final(self).search.matches@.len() == 0
                            &&& final(self).search.current_match is None
                            &&& *final(self) == (GitGraph { search: final(self).search, ..*old(self) })
                        } else if key.code == KeyCode::Enter {
                            if old(self).can_show_commit_files() {
                                old(self).asks_commit_files(r) && *final(self) == old(self).next_detail_generation()
                            } else {
                                r is Nothing && *final(self) == *old(self)
                            }
                        } else if key.code == KeyCode::Char('f') {
                            &&& r == (if old(self).repo_path is Some { GraphRequest::Reload } else { GraphRequest::Nothing })
                            &&& *final(self) == (GitGraph {
                                graph_options: GraphOptions {
                                    first_parent: !old(self).graph_options.first_parent,
                                    ..old(self).graph_options
                                },
                                ..*old(self)
                            })
                        } else if key.code == KeyCode::Char('c') {
                            r is Nothing && old(self).collapse_toggled(*final(self))
                        } else if key.code == KeyCode::Char('H') {
                            r is Nothing && old(self).unfolded_all(*final(self))
                        } else if key.code == KeyCode::Char('l') || key.code == KeyCode::Right {
                            r is Nothing && *final(self) == (GitGraph { h_scroll: scroll_right_spec(old(self).h_scroll), ..*old(self) })
                        } else if key.code == KeyCode::Char('h') || key.code == KeyCode::Left {
                            r is Nothing && *final(self) == (GitGraph { h_scroll: scroll_left_spec(old(self).h_scroll), ..*old(self) })
                        } else {
                            r is Nothing && *final(self) == *old(self)
                        },
                    }
                },
            },
    {
        match self.commit_detail.take() {
            Some(mut d) => {
                if d.diff_content.is_some() {
                    let closes = match key.code {
                        KeyCode::Esc | KeyCode::Left => true,
                        KeyCode::Char(c) => c == 'h',
                        _ => false,
                    };
                    if closes {
                        d.diff_content = None;
                        scroll_reset(&mut d.diff_scroll);
                    } else {
                        let _ = scroll_vertical_key(&mut d.diff_scroll, key);
                    }
                    self.commit_detail = Some(d);
                    return GraphRequest::Nothing;
                }
                if key.code == KeyCode::Esc {
                    self.commit_detail = Some(d);
                    return self.close_detail();
                }
                match handle_vertical_key(d.file_selected, d.files.len(), key) {
                    Some(sel) => {
                        d.file_selected = sel;
                        if sel.is_none() {
                            d.file_offset = 0;
                        }
                        self.commit_detail = Some(d);
                        GraphRequest::Nothing
                    },
                    None => {
                        self.commit_detail = Some(d);
                        if key.code == KeyCode::Enter {
                            self.try_show_commit_diff()
                        } else {
                            GraphRequest::Nothing
                        }
                    },
                }
            },
            None => {
                if key.code == KeyCode::Char('n') {
                    self.search_next();
                    return GraphRequest::Nothing;
                }
                if key.code == KeyCode::Char('N') {
                    self.search_prev();
                    return GraphRequest::Nothing;
                }
                let n = self.display_rows().len();
                match handle_vertical_key(self.selected, n, key) {
                    Some(sel) => {
                        self.selected = sel;
                        if sel.is_none() {
                            self.offset = 0;
                        }
                        return GraphRequest::Nothing;
                    },
                    None => {},
                }
                if key.code == KeyCode::Char('/') {
                    self.search.open();
                    GraphRequest::Nothing
                } else if key.code == KeyCode::Enter {
                    self.try_show_commit_files()
                } else if key.code == KeyCode::Char('f') {
                    self.graph_options.first_parent = !self.graph_options.first_parent;
                    if self.repo_path.is_some() {
                        GraphRequest::Reload
                    } else {
                        GraphRequest::Nothing
                    }
                } else if key.code == KeyCode::Char('c') {
                    self.toggle_collapse_selected();
                    GraphRequest::Nothing
                } else if key.code == KeyCode::Char('H') {
                    self.expand_all_branches();
                    GraphRequest::Nothing
                } else if key.code == KeyCode::Char('l') || key.code == KeyCode::Right {
                    self.h_scroll = self.h_scroll.saturating_add(4);
                    GraphRequest::Nothing
                } else if key.code == KeyCode::Char('h') || key.code == KeyCode::Left {
                    self.h_scroll = self.h_scroll.saturating_sub(4);
                    GraphRequest::Nothing
                } else {
                    GraphRequest::Nothing
                }
            },
        }
    }

    /// Handles a mouse event. A click on a commit selects it and closes the
    /// commit detail (asking for a deferred reload); a click on the
    /// selected commit, with no detail open, asks for its files. A click on
    /// a file of the open commit selects it, or asks for its diff when it
    /// is already selected. The wheel scrolls the pane under the pointer or
    /// moves a selection; sideways wheel turns scroll by four columns.
    pub fn handle_mouse_event(&mut self, mouse: MouseInput) -> (r: GraphRequest)
        requires
            old(self).detail_generation < u64::MAX,
            click_fits(old(self).graph_list_area, old(self).offset),
            old(self).commit_detail matches Some(d) ==> click_fits(d.file_list_area, d.file_offset),
        ensures
            final(self).all_rows == old(self).all_rows,
            final(self).rows == old(self).rows,
            final(self).segments == old(self).segments,
            final(self).collapsed_branches == old(self).collapsed_branches,
            match mouse {
                MouseInput::LeftDown(col, row) => if area_contains_spec(old(self).graph_list_area, col, row) {
                    match clicked_row(old(self).graph_list_area, col, row, old(self).offset, old(self).shown().len()) {
                        Some(idx) => if old(self).selected == Some(idx) && old(self).commit_detail is None {
                            if old(self).can_show_commit_files() {
                                old(self).asks_commit_files(r) && *final(self) == old(self).next_detail_generation()
                            } else {
                                r is Nothing && *final(self) == *old(self)
                            }
                        } else {
                            r == old(self).deferred_reload() && *final(self) == (GitGraph {
                                selected: Some(idx),
                                commit_detail: None,
                                needs_reload: false,
                                ..*old(self)
                            })
                        },
                        None => r is Nothing && *final(self) == *old(self),
                    }
                } else {
                    match old(self).commit_detail {
                        Some(d) => if area_contains_spec(d.file_list_area, col, row) && clicked_row(
                            d.file_list_area,
                            col,
                            row,
                            d.file_offset,
                            d.files@.len(),
                        ) is Some {
                            let idx = clicked_row(d.file_list_area, col, row, d.file_offset, d.files@.len())->0;
                            if d.file_selected == Some(idx) {
                                match old(self).commit_diff_request() {
                                    Some(req) => r == req && *final(self) == old(self).next_detail_generation(),
                                    None => r is Nothing && *final(self) == *old(self),
                                }
                            } else {
                                r is Nothing && *final(self) == (GitGraph {
                                    commit_detail: Some(CommitDetail { file_selected: Some(idx), ..d }),
                                    ..*old(self)
                                })
                            }
                        } else {
                            r is Nothing && *final(self) == *old(self)
                        },
                        None => r is Nothing && *final(self) == *old(self),
                    }
                },
                MouseInput::ScrollUp(col, row) => r is Nothing && *final(self) == old(self).after_wheel_up(col, row),
                MouseInput::ScrollDown(col, row) => r is Nothing && *final(self) == old(self).after_wheel_down(col, row),
                MouseInput::ScrollLeft => r is Nothing && *final(self) == (GitGraph {
                    h_scroll: scroll_left_spec(old(self).h_scroll),
                    ..*old(self)
                }),
                MouseInput::ScrollRight => r is Nothing && *final(self) == (GitGraph {
                    h_scroll: scroll_right_spec(old(self).h_scroll),
                    ..*old(self)
                }),
                _ => r is Nothing && *final(self) == *old(self),
            },
    {
        match mouse {
            MouseInput::LeftDown(col, row) => {
                if area_contains(self.graph_list_area, col, row) {
                    let n = self.display_rows().len();
                    match clicked_list_index(self.graph_list_area, col, row, self.offset, n) {
                        Some(idx) => {
                            if self.selected == Some(idx) && self.commit_detail.is_none() {
                                return self.try_show_commit_files();
                            }
                            self.selected = Some(idx);
                            return self.close_detail();
                        },
                        None => return GraphRequest::Nothing,
                    }
                }
                match self.commit_detail.take() {
                    Some(mut d) => {
                        let hit = if area_contains(d.file_list_area, col, row) {
                            clicked_list_index(d.file_list_area, col, row, d.file_offset, d.files.len())
                        } else {
                            None
                        };
                        match hit {
                            Some(idx) => {
                                if d.file_selected == Some(idx) {
                                    self.commit_detail = Some(d);
                                    self.try_show_commit_diff()
                                } else {
                                    d.file_selected = Some(idx);
                                    self.commit_detail = Some(d);
                                    GraphRequest::Nothing
                                }
                            },
                            None => {
                                self.commit_detail = Some(d);
                                GraphRequest::Nothing
                            },
                        }
                    },
                    None => GraphRequest::Nothing,
                }
            },
            MouseInput::ScrollUp(col, row) => {
                let in_diff = area_contains(self.diff_area, col, row);
                match self.commit_detail.take() {
                    Some(mut d) => {
                        if in_diff && d.diff_content.is_some() {
                            scroll_up(&mut d.diff_scroll);
                            self.commit_detail = Some(d);
                            return GraphRequest::Nothing;
                        }
                        if area_contains(d.msg_area, col, row) {
                            scroll_up(&mut d.msg_scroll);
                            self.commit_detail = Some(d);
                            return GraphRequest::Nothing;
                        }
                        if area_contains(d.file_list_area, col, row) && d.files.len() > 0 {
                            d.file_selected = select_prev(d.file_selected, d.files.len());
                            self.commit_detail = Some(d);
                            return GraphRequest::Nothing;
                        }
                        self.commit_detail = Some(d);
                    },
                    None => {},
                }
                let n = self.display_rows().len();
                self.selected = select_prev(self.selected, n);
                GraphRequest::Nothing
            },
            MouseInput::ScrollDown(col, row) => {
                let in_diff = area_contains(self.diff_area, col, row);
                match self.commit_detail.take() {
                    Some(mut d) => {
                        if in_diff && d.diff_content.is_some() {
                            scroll_down(&mut d.diff_scroll);
                            self.commit_detail = Some(d);
                            return GraphRequest::Nothing;
                        }
                        if area_contains(d.msg_area, col, row) {
                            scroll_down(&mut d.msg_scroll);
                            self.commit_detail = Some(d);
                            return GraphRequest::Nothing;
                        }
                        if area_contains(d.file_list_area, col, row) && d.files.len() > 0 {
                            d.file_selected = select_next(d.file_selected, d.files.len());
                            self.commit_detail = Some(d);
                            return GraphRequest::Nothing;
                        }
                        self.commit_detail = Some(d);
                    },
                    None => {},
                }
                let n = self.display_rows().len();
                self.selected = select_next(self.selected, n);
                GraphRequest::Nothing
            },
            MouseInput::ScrollLeft => {
                self.h_scroll = self.h_scroll.saturating_sub(4);
                GraphRequest::Nothing
            },
            MouseInput::ScrollRight => {
                self.h_scroll = self.h_scroll.saturating_add(4);
                GraphRequest::Nothing
            },
            _ => GraphRequest::Nothing,
        }
    }

    /// Plans a diff-statistics request for the rows around the selection
    /// of a list `height` cells tall: when statistics are shown, a
    /// repository is loaded and a channel can carry the result (`can_send`),
    /// the commits in the window that still lack statistics (not folded,
    /// not cached, not already requested) are marked as requested and
    /// returned with the repository path and the load generation.
    pub fn plan_diff_stats(&mut self, height: u16, can_send: bool) -> (r: Option<(String, Vec<Oid>, u64)>)
        ensures
            ({
                let n = old(self).shown().len() as int;
                let (start, end) = stats_window(n, old(self).selected, height as int);
                let w = wanted_stats(old(self).shown(), old(self).diff_stat_cache@, old(self).pending_diff_stats@, start, end);
                if old(self).graph_options.show_stats && old(self).repo_path is Some && can_send && n > 0 && w.len() > 0 {
                    &&& r matches Some((p, oids, g)) && Some(p) == old(self).repo_path && oids@ == w && g
                        == old(self).load_generation
                    &&& final(self).pending_diff_stats@ == old(self).pending_diff_stats@ + w
                    &&& *final(self) == (GitGraph { pending_diff_stats: final(self).pending_diff_stats, ..*old(self) })
                } else {
                    r is None && *final(self) == *old(self)
                }
            }),
    {
        if !self.graph_options.show_stats || !can_send {
            return None;
        }
        let path = match &self.repo_path {
            Some(p) => p.clone(),
            None => return None,
        };
        let n = self.display_rows().len();
        if n == 0 {
            return None;
        }
        let visible: usize = if height > 2 {
            (height - 2) as usize
        } else {
            1
        };
        let sel0: usize = match self.selected {
            Some(i) => i,
            None => 0,
        };
        let sel = if sel0 < n - 1 {
            sel0
        } else {
            n - 1
        };
        let start = if sel >= visible / 2 {
            sel - visible / 2
        } else {
            0
        };
        let end = if visible + 8 < n - start {
            start + visible + 8
        } else {
            n
        };
        assert((start as int, end as int) == stats_window(n as int, self.selected, height as int));
        let mut wanted: Vec<Oid> = Vec::new();
        let mut k = start;
        while k < end
            invariant
                start <= k <= end <= n,
                n == self.shown().len(),
                *self == *old(self),
                wanted@ == wanted_stats(self.shown(), self.diff_stat_cache@, self.pending_diff_stats@, start as int, k as int),
            decreases end - k,
        {
            let rows = self.display_rows();
            let row = &rows[k];
            let want = row.collapsed.is_none() && row.diff_stat.is_none() && last_stat_exec(
                &self.diff_stat_cache,
                &row.oid,
            ).is_none() && !oids_hold_exec(&self.pending_diff_stats, &row.oid) && !oids_hold_exec(&wanted, &row.oid);
            if want {
                wanted.push(row.oid.clone());
            }
            k = k + 1;
        }
        if wanted.len() == 0 {
            return None;
        }
        let mut i: usize = 0;
        let ghost before = self.pending_diff_stats@;
        while i < wanted.len()
            invariant
                i <= wanted@.len(),
                self.pending_diff_stats@ == before + wanted@.take(i as int),
                *self == (GitGraph { pending_diff_stats: self.pending_diff_stats, ..*old(self) }),
            decreases wanted@.len() - i,
        {
            self.pending_diff_stats.push(wanted[i].clone());
            assert(wanted@.take(i + 1) =~= wanted@.take(i as int).push(wanted@[i as int]));
            i = i + 1;
        }
        assert(wanted@.take(i as int) =~= wanted@);
        Some((path, wanted, self.load_generation))
    }

    /// Whether a pushed-status refresh for the repository at `path` should
    /// run: it must be the shown repository and a channel must be able to
    /// carry the result (`can_send`). Answers the load generation to tag
    /// the result with.
    pub fn refresh_pushed_status_for_path(&self, path: &str, can_send: bool) -> (r: Option<u64>)
        ensures
            r == (if (self.repo_path matches Some(p) && p@ == path@) && can_send {
                Some(self.load_generation)
            } else {
                None
            }),
    {
        if self.shows_repo(path) && can_send {
            Some(self.load_generation)
        } else {
            None
        }
    }

    /// A pushed-status refresh for the shown repository: its path and the
    /// load generation, when a repository is shown and `can_send`.
    pub fn refresh_pushed_status(&self, can_send: bool) -> (r: Option<(String, u64)>)
        ensures
            r == (match self.repo_path {
                Some(p) => if can_send { Some((p, self.load_generation)) } else { None },
                None => None,
            }),
    {
        match &self.repo_path {
            Some(p) => match self.refresh_pushed_status_for_path(p.as_str(), can_send) {
                Some(g) => Some((p.clone(), g)),
                None => None,
            },
            None => None,
        }
    }
}

/// First and one-past-last row of the window whose statistics are wanted,
/// for a list `height` cells tall (two border rows) showing `len > 0` rows
/// with `selected` selected: centred on the selection, eight rows deeper
/// than the screen.
pub open spec fn stats_window(len: int, selected: Option<usize>, height: int) -> (int, int) {
    let visible: int = if height > 2 { height - 2 } else { 1 };
    let sel0: int = match selected {
        Some(i) => i as int,
        None => 0,
    };
    let sel = if sel0 < len - 1 { sel0 } else { len - 1 };
    let start = if sel >= visible / 2 { sel - visible / 2 } else { 0 };
    let end = if start + visible + 8 < len { start + visible + 8 } else { len };
    (start, end)
}

/// Commits of rows `start..k` whose statistics are still wanted: rows that
/// are not placeholders, have none, are not cached and not already
/// requested, each commit once.
pub open spec fn wanted_stats(
    rows: Seq<GraphRow>,
    cache: Seq<(Oid, DiffStat)>,
    pending: Seq<Oid>,
    start: int,
    k: int,
) -> Seq<Oid>
    decreases k - start,
{
    if k <= start {
        Seq::empty()
    } else {
        let prev = wanted_stats(rows, cache, pending, start, k - 1);
        let row = rows[k - 1];
        if row.collapsed is None && row.diff_stat is None && last_stat(cache, row.oid@, cache.len() as int) is None
            && !oids_hold(pending, row.oid@) && !oids_hold(prev, row.oid@) {
            prev.push(row.oid)
        } else {
            prev
        }
    }
}

/// The statistics found for the requested commits, followed by zero
/// statistics for each requested commit that none was found for.
pub open spec fn completed_stats(requested: Seq<Oid>, found: Seq<(Oid, DiffStat)>, k: int) -> Seq<(Oid, DiffStat)>
    decreases k,
{
    if k <= 0 {
        found
    } else {
        let prev = completed_stats(requested, found, k - 1);
        let id = requested[k - 1];
        if last_stat(found, id@, found.len() as int) is Some {
            prev
        } else {
            prev.push((id, DiffStat { additions: 0, deletions: 0 }))
        }
    }
}

/// Completes computed statistics with zero statistics for the requested
/// commits that got none.
pub fn complete_diff_stats(requested: &Vec<Oid>, found: Vec<(Oid, DiffStat)>) -> (r: Vec<(Oid, DiffStat)>)
    ensures
        r@ == completed_stats(requested@, found@, requested@.len() as int),
{
    let mut out: Vec<(Oid, DiffStat)> = Vec::new();
    let mut i: usize = 0;
    while i < found.len()
        invariant
            i <= found@.len(),
            out@ == found@.take(i as int),
        decreases found@.len() - i,
    {
        out.push((found[i].0.clone(), found[i].1));
        assert(out@ =~= found@.take(i + 1));
        i = i + 1;
    }
    assert(out@ =~= found@);
    let mut k: usize = 0;
    while k < requested.len()
        invariant
            k <= requested@.len(),
            out@ == completed_stats(requested@, found@, k as int),
        decreases requested@.len() - k,
    {
        if last_stat_exec(&found, &requested[k]).is_none() {
            out.push((requested[k].clone(), DiffStat { additions: 0, deletions: 0 }));
        }
        k = k + 1;
    }
    out
}

/// The commit rows on screen in a list `height` cells tall (two border
/// rows) showing `len > 0` rows: `(first, one past the last, selection on
/// screen)`, the selection kept in the middle where the rows allow.
pub open spec fn graph_window_spec(len: int, selected: Option<usize>, height: int) -> (int, int, int) {
    let visible: int = if height > 2 { height - 2 } else { 1 };
    let sel0: int = match selected {
        Some(i) => i as int,
        None => 0,
    };
    let sel = if sel0 < len - 1 { sel0 } else { len - 1 };
    let max_start = if len > visible { len - visible } else { 0 };
    let start0 = if sel > visible / 2 { sel - visible / 2 } else { 0 };
    let start = if start0 < max_start { start0 } else { max_start };
    let end = if start + visible < len { start + visible } else { len };
    (start, end, sel - start)
}

/// The commit rows on screen.
pub fn graph_window(len: usize, selected: Option<usize>, height: u16) -> (r: (usize, usize, usize))
    requires
        len > 0,
    ensures
        (r.0 as int, r.1 as int, r.2 as int) == graph_window_spec(len as int, selected, height as int),
{
    let visible: usize = if height > 2 {
        (height - 2) as usize
    } else {
        1
    };
    let sel0: usize = match selected {
        Some(i) => i,
        None => 0,
    };
    let sel = if sel0 < len - 1 {
        sel0
    } else {
        len - 1
    };
    let max_start = if len > visible {
        len - visible
    } else {
        0
    };
    let start0 = if sel > visible / 2 {
        sel - visible / 2
    } else {
        0
    };
    let start = if start0 < max_start {
        start0
    } else {
        max_start
    };
    let end = if visible < len - start {
        start + visible
    } else {
        len
    };
    (start, end, sel - start)
}

/// Height of the commit message box above the file list of an open
/// commit, for a message of `line_count` lines in an area `area_height`
/// cells tall: the message and its borders, at most a third of the area,
/// and between 3 and 8 cells.
pub fn message_height(line_count: u16, area_height: u16) -> (r: u16)
    requires
        line_count + 2 <= u16::MAX,
    ensures
        ({
            let want: int = if line_count > 1 { line_count + 2 } else { 3 };
            let capped: int = if want < area_height / 3 { want } else { (area_height / 3) as int };
            r == (if capped < 3 { 3 } else if capped > 8 { 8 } else { capped })
        }),
{
    let lines = if line_count > 1 {
        line_count
    } else {
        1
    };
    let want = lines + 2;
    let third = area_height / 3;
    let capped = if want < third {
        want
    } else {
        third
    };
    if capped < 3 {
        3
    } else if capped > 8 {
        8
    } else {
        capped
    }
}

impl GitGraph {
    /// Title of the commit list's frame: the repository, `[1st-parent]` in
    /// first-parent mode, and the number of folded segments.
    pub fn title(&self) -> (r: String)
        ensures
            r@ == " Git Graph — "@ + self.repo_name@ + (if self.graph_options.first_parent {
                " [1st-parent]"@
            } else {
                Seq::<char>::empty()
            }) + (if self.collapsed_branches@.len() > 0 {
                " ("@ + crate::text::decimal(self.collapsed_branches@.len()) + " collapsed)"@
            } else {
                Seq::<char>::empty()
            }) + " "@,
    {
        let mut s = crate::text::owned(" Git Graph — ");
        push_str(&mut s, self.repo_name.as_str());
        let ghost a = s@;
        if self.graph_options.first_parent {
            push_str(&mut s, " [1st-parent]");
        } else {
            assert(s@ =~= a + Seq::<char>::empty());
        }
        let ghost b = s@;
        let n = self.collapsed_branches.len();
        if n > 0 {
            push_str(&mut s, " (");
            crate::text::push_decimal(&mut s, n as u64);
            push_str(&mut s, " collapsed)");
            assert(s@ =~= b + (" ("@ + crate::text::decimal(n as nat) + " collapsed)"@));
        } else {
            assert(s@ =~= b + Seq::<char>::empty());
        }
        push_str(&mut s, " ");
        s
    }

    /// Text of the search box: the query and, once there is one, the
    /// current match out of all matches.
    pub fn search_text(&self) -> (r: String)
        requires
            self.search.current_match matches Some(i) ==> i < usize::MAX,
        ensures
            self.search.input@.len() == 0 ==> r@ == " / "@ + self.search.input@ + " "@,
            self.search.input@.len() > 0 ==> r@ == " / "@ + self.search.input@ + " "@ + crate::text::decimal(
                match self.search.current_match {
                    Some(i) => (i + 1) as nat,
                    None => 0,
                },
            ) + "/"@ + crate::text::decimal(self.search.matches@.len()) + " "@,
    {
        let mut s = crate::text::owned(" / ");
        push_str(&mut s, self.search.input.as_str());
        if !self.search.input.as_str().is_empty() {
            push_str(&mut s, " ");
            let current: u64 = match self.search.current_match {
                Some(i) => (i + 1) as u64,
                None => 0,
            };
            crate::text::push_decimal(&mut s, current);
            push_str(&mut s, "/");
            crate::text::push_decimal(&mut s, self.search.matches.len() as u64);
        }
        push_str(&mut s, " ");
        s
    }
}

} // verus!
