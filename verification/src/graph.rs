//! Commit-graph rows and the lane layout of the graph view.
//!
//! The graph is drawn one commit per row. Each column ("lane") of a row
//! either continues a line, holds the commit dot, or draws a merge/fork
//! connector. [`GraphBuilder`] keeps, for every lane, the id of the commit
//! that lane is waiting for, and turns commits (newest first) into rows.
use vstd::prelude::*;
use crate::oid::Oid;

verus! {

/// Number of lane colours.
pub const PALETTE_SIZE: usize = 6;

/// Most commits shown in one graph.
pub const MAX_COMMITS: usize = 200;

/// What is drawn in one lane of one row.
#[derive(Clone, Copy, Debug, PartialEq, Eq, Structural)]
pub enum LaneSegment {
    Empty,
    Straight,
    Commit,
    MergeLeft,
    MergeRight,
    ForkLeft,
    ForkRight,
    Horizontal,
    CrossHorizontal,
    RightTee,
    LeftTee,
}

/// A branch or tag name attached to a commit.
#[derive(Debug)]
pub struct BranchLabel {
    pub name: String,
    pub is_head: bool,
    pub is_remote: bool,
    pub is_worktree: bool,
    pub is_tag: bool,
}

impl Clone for BranchLabel {
    fn clone(&self) -> (r: Self)
        ensures
            r == *self,
    {
        BranchLabel {
            name: self.name.clone(),
            is_head: self.is_head,
            is_remote: self.is_remote,
            is_worktree: self.is_worktree,
            is_tag: self.is_tag,
        }
    }
}

/// Lines added and removed by a commit.
#[derive(Clone, Copy, Debug, PartialEq, Eq, Structural)]
pub struct DiffStat {
    pub additions: usize,
    pub deletions: usize,
}

/// A horizontal connector `(left, right, colour)` between two lanes.
pub type Span3 = (usize, usize, usize);

/// One row of the commit graph.
#[derive(Debug)]
pub struct GraphRow {
    pub commit_col: usize,
    pub lanes: Vec<LaneSegment>,
    pub oid: Oid,
    pub short_id: String,
    pub message: String,
    pub author: String,
    pub time: i64,
    pub labels: Vec<BranchLabel>,
    pub is_pushed: bool,
    pub is_merge: bool,
    pub horizontal_spans: Vec<Span3>,
    pub parent_oids: Vec<Oid>,
    pub diff_stat: Option<DiffStat>,
    /// If set, this row is a collapsed-branch placeholder: (branch id, hidden count).
    pub collapsed: Option<(String, usize)>,
}

/// Mathematical model of a [`GraphRow`]: vectors are seen as sequences.
pub ghost struct RowView {
    pub commit_col: usize,
    pub lanes: Seq<LaneSegment>,
    pub oid: Oid,
    pub short_id: String,
    pub message: String,
    pub author: String,
    pub time: i64,
    pub labels: Seq<BranchLabel>,
    pub is_pushed: bool,
    pub is_merge: bool,
    pub horizontal_spans: Seq<Span3>,
    pub parent_oids: Seq<Oid>,
    pub diff_stat: Option<DiffStat>,
    pub collapsed: Option<(String, usize)>,
}

impl View for GraphRow {
    type V = RowView;

    open spec fn view(&self) -> RowView {
        RowView {
            commit_col: self.commit_col,
            lanes: self.lanes@,
            oid: self.oid,
            short_id: self.short_id,
            message: self.message,
            author: self.author,
            time: self.time,
            labels: self.labels@,
            is_pushed: self.is_pushed,
            is_merge: self.is_merge,
            horizontal_spans: self.horizontal_spans@,
            parent_oids: self.parent_oids@,
            diff_stat: self.diff_stat,
            collapsed: self.collapsed,
        }
    }
}

/// Copies a vector of labels.
pub fn clone_labels(v: &Vec<BranchLabel>) -> (r: Vec<BranchLabel>)
    ensures
        r@ == v@,
{
    let mut r: Vec<BranchLabel> = Vec::new();
    let mut i: usize = 0;
    while i < v.len()
        invariant
            i <= v@.len(),
            r@ == v@.subrange(0, i as int),
        decreases v@.len() - i,
    {
        r.push(v[i].clone());
        i = i + 1;
        assert(r@ =~= v@.subrange(0, i as int));
    }
    assert(r@ =~= v@);
    r
}

/// Copies a vector of object ids.
pub fn clone_oids(v: &Vec<Oid>) -> (r: Vec<Oid>)
    ensures
        r@ == v@,
{
    let mut r: Vec<Oid> = Vec::new();
    let mut i: usize = 0;
    while i < v.len()
        invariant
            i <= v@.len(),
            r@ == v@.subrange(0, i as int),
        decreases v@.len() - i,
    {
        r.push(v[i].clone());
        i = i + 1;
        assert(r@ =~= v@.subrange(0, i as int));
    }
    assert(r@ =~= v@);
    r
}

/// Copies a vector of plain values.
pub fn clone_copy_vec<T: Copy>(v: &Vec<T>) -> (r: Vec<T>)
    ensures
        r@ == v@,
{
    let mut r: Vec<T> = Vec::new();
    let mut i: usize = 0;
    while i < v.len()
        invariant
            i <= v@.len(),
            r@ == v@.subrange(0, i as int),
        decreases v@.len() - i,
    {
        r.push(v[i]);
        i = i + 1;
        assert(r@ =~= v@.subrange(0, i as int));
    }
    assert(r@ =~= v@);
    r
}

impl GraphRow {
    /// A copy of this row with the same model.
    pub fn duplicate(&self) -> (r: GraphRow)
        ensures
            r@ == self@,
    {
        GraphRow {
            commit_col: self.commit_col,
            lanes: clone_copy_vec(&self.lanes),
            oid: self.oid.clone(),
            short_id: self.short_id.clone(),
            message: self.message.clone(),
            author: self.author.clone(),
            time: self.time,
            labels: clone_labels(&self.labels),
            is_pushed: self.is_pushed,
            is_merge: self.is_merge,
            horizontal_spans: clone_copy_vec(&self.horizontal_spans),
            parent_oids: clone_oids(&self.parent_oids),
            diff_stat: self.diff_stat,
            collapsed: match &self.collapsed {
                Some((k, n)) => Some((k.clone(), *n)),
                None => None,
            },
        }
    }
}

/// Colour index (`0..PALETTE_SIZE`) of a lane column; neighbouring lanes differ.
pub open spec fn lane_color_spec(col: int) -> int {
    col % (PALETTE_SIZE as int)
}

/// Colour index of a lane column.
pub fn lane_color(col: usize) -> (c: usize)
    ensures
        c == lane_color_spec(col as int),
        c < PALETTE_SIZE,
{
    col % PALETTE_SIZE
}

// ---------------------------------------------------------------------------
// Model of the lane layout
// ---------------------------------------------------------------------------

/// Whether a lane is waiting for the commit whose id text is `id`.
pub open spec fn holds(lane: Option<Oid>, id: Seq<char>) -> bool {
    match lane {
        Some(o) => o@ == id,
        None => false,
    }
}

/// First index `>= i` of a lane waiting for `id`, or the number of lanes.
pub open spec fn find_holding_from(lanes: Seq<Option<Oid>>, id: Seq<char>, i: int) -> int
    decreases lanes.len() - i,
{
    if i >= lanes.len() {
        lanes.len() as int
    } else if holds(lanes[i], id) {
        i
    } else {
        find_holding_from(lanes, id, i + 1)
    }
}

/// First lane waiting for `id`, or the number of lanes when none is.
pub open spec fn find_holding(lanes: Seq<Option<Oid>>, id: Seq<char>) -> int {
    find_holding_from(lanes, id, 0)
}

/// First index `>= i` of a free lane, or the number of lanes.
pub open spec fn find_free_from(lanes: Seq<Option<Oid>>, i: int) -> int
    decreases lanes.len() - i,
{
    if i >= lanes.len() {
        lanes.len() as int
    } else if lanes[i] is None {
        i
    } else {
        find_free_from(lanes, i + 1)
    }
}

/// First free lane, or the number of lanes when all are taken.
pub open spec fn find_free(lanes: Seq<Option<Oid>>) -> int {
    find_free_from(lanes, 0)
}

/// `lanes` with slot `c` set to `v`; `c == lanes.len()` appends.
pub open spec fn put_lane(lanes: Seq<Option<Oid>>, c: int, v: Option<Oid>) -> Seq<Option<Oid>> {
    if c < lanes.len() {
        lanes.update(c, v)
    } else {
        lanes.push(v)
    }
}

/// Column of the commit and the lanes once the commit has a lane: the
/// first lane waiting for it, else the first free lane (or a new one).
pub open spec fn place(active: Seq<Option<Oid>>, oid: Oid) -> (int, Seq<Option<Oid>>) {
    let f = find_holding(active, oid@);
    if f < active.len() {
        (f, active)
    } else {
        let c = find_free(active);
        (c, put_lane(active, c, Some(oid)))
    }
}

/// Segments of the row before any connector is drawn.
pub open spec fn initial_segments(active: Seq<Option<Oid>>, col: int) -> Seq<LaneSegment> {
    Seq::new(
        active.len(),
        |i: int|
            if i == col {
                LaneSegment::Commit
            } else if active[i] is Some {
                LaneSegment::Straight
            } else {
                LaneSegment::Empty
            },
    )
}

/// `l` padded with `Empty` up to length `n`.
pub open spec fn pad_empty(l: Seq<LaneSegment>, n: int) -> Seq<LaneSegment> {
    if l.len() >= n {
        l
    } else {
        l + Seq::new((n - l.len()) as nat, |i: int| LaneSegment::Empty)
    }
}

/// Layout state: awaited lanes, segments and connectors of the row.
pub type LayoutState = (Seq<Option<Oid>>, Seq<LaneSegment>, Seq<Span3>);

/// Effect of one additional (non-first) parent: a parent nobody waits for
/// yet forks into the first free lane.
pub open spec fn fork_step(st: LayoutState, col: int, p: Oid) -> LayoutState {
    let (a, l, s) = st;
    if find_holding(a, p@) < a.len() {
        st
    } else {
        let nc = find_free(a);
        let l2 = pad_empty(l, nc + 1);
        if nc > col {
            (
                put_lane(a, nc, Some(p)),
                l2.update(nc, LaneSegment::ForkRight),
                s.push((col as usize, nc as usize, lane_color_spec(nc) as usize)),
            )
        } else {
            (
                put_lane(a, nc, Some(p)),
                l2.update(nc, LaneSegment::ForkLeft),
                s.push((nc as usize, col as usize, lane_color_spec(nc) as usize)),
            )
        }
    }
}

/// Effect of the additional parents `ps`, in order.
pub open spec fn fork_all(st: LayoutState, col: int, ps: Seq<Oid>) -> LayoutState
    decreases ps.len(),
{
    if ps.len() == 0 {
        st
    } else {
        fork_step(fork_all(st, col, ps.drop_last()), col, ps.last())
    }
}

/// Segment at `i` once the connector `sp` is drawn over `l`.
pub open spec fn fill_at(l: Seq<LaneSegment>, sp: Span3, i: int) -> LaneSegment {
    let (left, right, _c) = sp;
    if i == left {
        if l[i] == LaneSegment::Straight {
            LaneSegment::RightTee
        } else {
            l[i]
        }
    } else if i == right {
        if l[i] == LaneSegment::Straight {
            LaneSegment::LeftTee
        } else {
            l[i]
        }
    } else if left < i && i < right {
        if l[i] == LaneSegment::Straight {
            LaneSegment::CrossHorizontal
        } else if l[i] == LaneSegment::Empty {
            LaneSegment::Horizontal
        } else {
            l[i]
        }
    } else {
        l[i]
    }
}

/// Draws one connector: tees at its ends, crossings and dashes between.
pub open spec fn fill_span(l: Seq<LaneSegment>, sp: Span3) -> Seq<LaneSegment> {
    Seq::new(l.len(), |i: int| fill_at(l, sp, i))
}

/// Draws the connectors `spans`, in order.
pub open spec fn fill(l: Seq<LaneSegment>, spans: Seq<Span3>) -> Seq<LaneSegment>
    decreases spans.len(),
{
    if spans.len() == 0 {
        l
    } else {
        fill_span(fill(l, spans.drop_last()), spans.last())
    }
}

/// `a` without its trailing free lanes.
pub open spec fn trim_free(a: Seq<Option<Oid>>) -> Seq<Option<Oid>>
    decreases a.len(),
{
    if a.len() > 0 && a.last() is None {
        trim_free(a.drop_last())
    } else {
        a
    }
}

/// Layout after the first parent is handled: it continues the commit's
/// lane, or, when another lane already waits for it, a merge connector
/// joins that lane.
pub open spec fn first_parent_state(a2: Seq<Option<Oid>>, l0: Seq<LaneSegment>, col: int, fp: Oid) -> LayoutState {
    let ex = find_holding(a2, fp@);
    if ex < a2.len() {
        if ex < col {
            (a2, l0.update(col, LaneSegment::MergeLeft), seq![(ex as usize, col as usize, lane_color_spec(col) as usize)])
        } else {
            (a2, l0.update(col, LaneSegment::MergeRight), seq![(col as usize, ex as usize, lane_color_spec(col) as usize)])
        }
    } else {
        (a2.update(col, Some(fp)), l0, Seq::empty())
    }
}

/// The full effect of one commit: `(column, segments, connectors, lanes after)`.
pub open spec fn process_spec(active: Seq<Option<Oid>>, oid: Oid, parents: Seq<Oid>) -> (int, Seq<LaneSegment>, Seq<Span3>, Seq<Option<Oid>>) {
    let (col, a1) = place(active, oid);
    let l0 = initial_segments(a1, col);
    let a2 = a1.update(col, None);
    if parents.len() == 0 {
        (col, l0, Seq::empty(), trim_free(a2))
    } else {
        let st1 = first_parent_state(a2, l0, col, parents[0]);
        let (a4, l2, s2) = fork_all(st1, col, parents.drop_first());
        (col, fill(l2, s2), s2, trim_free(a4))
    }
}

/// Every connector joins two lanes of the row, left to right.
pub open spec fn spans_fit(spans: Seq<Span3>, n: int) -> bool {
    forall|k: int|
        0 <= k < spans.len() ==> {
            let (l, r, c) = #[trigger] spans[k];
            l <= r && (r as int) < n && c < PALETTE_SIZE
        }
}

// ---------------------------------------------------------------------------
// Lemmas about the model
// ---------------------------------------------------------------------------

proof fn lemma_find_holding_from(lanes: Seq<Option<Oid>>, id: Seq<char>, i: int)
    requires
        0 <= i <= lanes.len(),
    ensures
        i <= find_holding_from(lanes, id, i) <= lanes.len(),
        find_holding_from(lanes, id, i) < lanes.len() ==> holds(
            lanes[find_holding_from(lanes, id, i)],
            id,
        ),
        forall|j: int| i <= j < find_holding_from(lanes, id, i) ==> !holds(#[trigger] lanes[j], id),
    decreases lanes.len() - i,
{
    if i < lanes.len() && !holds(lanes[i], id) {
        lemma_find_holding_from(lanes, id, i + 1);
    }
}

/// `find_holding` is the first lane waiting for `id`.
pub proof fn lemma_find_holding(lanes: Seq<Option<Oid>>, id: Seq<char>)
    ensures
        0 <= find_holding(lanes, id) <= lanes.len(),
        find_holding(lanes, id) < lanes.len() ==> holds(lanes[find_holding(lanes, id)], id),
        forall|j: int| 0 <= j < find_holding(lanes, id) ==> !holds(#[trigger] lanes[j], id),
{
    lemma_find_holding_from(lanes, id, 0);
}

proof fn lemma_find_free_from(lanes: Seq<Option<Oid>>, i: int)
    requires
        0 <= i <= lanes.len(),
    ensures
        i <= find_free_from(lanes, i) <= lanes.len(),
        find_free_from(lanes, i) < lanes.len() ==> lanes[find_free_from(lanes, i)] is None,
        forall|j: int| i <= j < find_free_from(lanes, i) ==> (#[trigger] lanes[j]) is Some,
    decreases lanes.len() - i,
{
    if i < lanes.len() && lanes[i] is Some {
        lemma_find_free_from(lanes, i + 1);
    }
}

/// `find_free` is the first free lane.
pub proof fn lemma_find_free(lanes: Seq<Option<Oid>>)
    ensures
        0 <= find_free(lanes) <= lanes.len(),
        find_free(lanes) < lanes.len() ==> lanes[find_free(lanes)] is None,
        forall|j: int| 0 <= j < find_free(lanes) ==> (#[trigger] lanes[j]) is Some,
{
    lemma_find_free_from(lanes, 0);
}

proof fn lemma_trim_free(a: Seq<Option<Oid>>)
    ensures
        trim_free(a).len() <= a.len(),
        trim_free(a) == a.take(trim_free(a).len() as int),
        trim_free(a).len() == 0 || trim_free(a).last() is Some,
        forall|i: int| 0 <= i < a.len() && (#[trigger] a[i]) is Some ==> i < trim_free(a).len(),
    decreases a.len(),
{
    if a.len() > 0 && a.last() is None {
        lemma_trim_free(a.drop_last());
        let t = trim_free(a.drop_last());
        assert(a.drop_last().take(t.len() as int) =~= a.take(t.len() as int));
        assert forall|i: int| 0 <= i < a.len() && (#[trigger] a[i]) is Some implies i < t.len() by {
            assert(i < a.len() - 1);
            assert(a.drop_last()[i] == a[i]);
        }
    } else {
        assert(a.take(a.len() as int) =~= a);
    }
}

/// Facts kept by one fork step: lanes that wait for a commit keep waiting
/// for it, the row only grows, and its connectors stay within the row.
pub proof fn lemma_fork_step(st: LayoutState, col: int, p: Oid)
    requires
        0 <= col < st.1.len(),
        st.1.len() >= st.0.len(),
        st.0.len() <= usize::MAX,
        st.1.len() <= usize::MAX,
        spans_fit(st.2, st.1.len() as int),
    ensures
        ({
            let (a, l, s) = st;
            let (a2, l2, s2) = fork_step(st, col, p);
            &&& a2.len() >= a.len()
            &&& l2.len() >= l.len()
            &&& l2.len() >= a2.len()
            &&& spans_fit(s2, l2.len() as int)
            &&& forall|i: int| 0 <= i < a.len() && (#[trigger] a[i]) is Some ==> a2[i] == a[i]
            &&& exists|j: int| 0 <= j < a2.len() && holds(#[trigger] a2[j], p@)
        }),
{
    let (a, l, s) = st;
    lemma_find_holding(a, p@);
    lemma_find_free(a);
    let f = find_holding(a, p@);
    if f < a.len() {
        assert(holds(a[f], p@));
    } else {
        let nc = find_free(a);
        let (a2, l2, s2) = fork_step(st, col, p);
        let lp = pad_empty(l, nc + 1);
        assert(lp.len() >= l.len() && lp.len() >= nc + 1);
        assert(l2.len() == lp.len());
        assert(holds(a2[nc], p@));
        assert(0 <= nc <= a.len());
        assert(lane_color_spec(nc) < 6);
        if nc > col {
            assert(s2 == s.push((col as usize, nc as usize, lane_color_spec(nc) as usize)));
        } else {
            assert(s2 == s.push((nc as usize, col as usize, lane_color_spec(nc) as usize)));
        }
        assert forall|k: int| 0 <= k < s2.len() implies {
            let (lft, r, c) = #[trigger] s2[k];
            lft <= r && (r as int) < l2.len() && c < PALETTE_SIZE
        } by {
            if k < s.len() {
                assert(s2[k] == s[k]);
            }
        }
    }
}

/// Lane facts of one fork step.
proof fn lemma_fork_step_lanes(st: LayoutState, col: int, p: Oid)
    requires
        0 <= col < st.1.len(),
        st.1.len() >= st.0.len(),
    ensures
        ({
            let (a, l, s) = st;
            let (a2, l2, s2) = fork_step(st, col, p);
            &&& a2.len() >= a.len()
            &&& l2.len() >= l.len()
            &&& l2.len() >= a2.len()
            &&& forall|i: int| 0 <= i < a.len() && (#[trigger] a[i]) is Some ==> a2[i] == a[i]
            &&& exists|j: int| 0 <= j < a2.len() && holds(#[trigger] a2[j], p@)
        }),
{
    let (a, l, s) = st;
    lemma_find_holding(a, p@);
    lemma_find_free(a);
    let f = find_holding(a, p@);
    if f < a.len() {
        assert(holds(a[f], p@));
    } else {
        let nc = find_free(a);
        let (a2, l2, s2) = fork_step(st, col, p);
        let lp = pad_empty(l, nc + 1);
        assert(lp.len() >= l.len() && lp.len() >= nc + 1);
        assert(holds(a2[nc], p@));
    }
}

/// Facts kept by any number of fork steps.
pub proof fn lemma_fork_all(st: LayoutState, col: int, ps: Seq<Oid>)
    requires
        0 <= col < st.1.len(),
        st.1.len() >= st.0.len(),
    ensures
        ({
            let (a, l, s) = st;
            let (a2, l2, s2) = fork_all(st, col, ps);
            &&& a2.len() >= a.len()
            &&& l2.len() >= l.len()
            &&& l2.len() >= a2.len()
            &&& forall|i: int| 0 <= i < a.len() && (#[trigger] a[i]) is Some ==> a2[i] == a[i]
            &&& forall|k: int| 0 <= k < ps.len() ==> exists|j: int| 0 <= j < a2.len() && holds(#[trigger] a2[j], (#[trigger] ps[k])@)
        }),
    decreases ps.len(),
{
    if ps.len() > 0 {
        let prev = fork_all(st, col, ps.drop_last());
        lemma_fork_all(st, col, ps.drop_last());
        lemma_fork_step_lanes(prev, col, ps.last());
        let (a, l, s) = st;
        let (pa, pl, ps2) = prev;
        let (a2, l2, s2) = fork_step(prev, col, ps.last());
        assert forall|k: int| 0 <= k < ps.len() implies exists|j: int| 0 <= j < a2.len() && holds(#[trigger] a2[j], (#[trigger] ps[k])@) by {
            if k < ps.len() - 1 {
                assert(ps.drop_last()[k] == ps[k]);
                let j = choose|j: int| 0 <= j < pa.len() && holds(#[trigger] pa[j], (ps.drop_last()[k])@);
                assert(a2[j] == pa[j]);
                assert(holds(a2[j], ps[k]@));
            }
        }
    }
}

pub proof fn lemma_fill(l: Seq<LaneSegment>, spans: Seq<Span3>)
    ensures
        fill(l, spans).len() == l.len(),
    decreases spans.len(),
{
    if spans.len() > 0 {
        lemma_fill(l, spans.drop_last());
    }
}

/// Drawing connectors never overwrites the commit's own segment unless it
/// is a continuing line; it keeps dots and merge/fork glyphs.
proof fn lemma_fill_keeps(l: Seq<LaneSegment>, spans: Seq<Span3>, i: int)
    requires
        0 <= i < l.len(),
        l[i] != LaneSegment::Straight,
        l[i] != LaneSegment::Empty,
    ensures
        fill(l, spans)[i] == l[i],
    decreases spans.len(),
{
    lemma_fill(l, spans);
    if spans.len() > 0 {
        lemma_fill_keeps(l, spans.drop_last(), i);
        lemma_fill(l, spans.drop_last());
    }
}

/// Every connector has the commit's column at one of its ends.
pub open spec fn spans_touch(spans: Seq<Span3>, col: int) -> bool {
    forall|k: int|
        0 <= k < spans.len() ==> {
            let (l, r, _c) = #[trigger] spans[k];
            l as int == col || r as int == col
        }
}

proof fn lemma_fork_all_touch(st: LayoutState, col: int, ps: Seq<Oid>)
    requires
        0 <= col <= usize::MAX,
        spans_touch(st.2, col),
    ensures
        spans_touch(fork_all(st, col, ps).2, col),
    decreases ps.len(),
{
    if ps.len() > 0 {
        let prev = fork_all(st, col, ps.drop_last());
        lemma_fork_all_touch(st, col, ps.drop_last());
        let (a, l, s) = prev;
        let (a2, l2, s2) = fork_step(prev, col, ps.last());
        assert forall|k: int| 0 <= k < s2.len() implies {
            let (x, y, _c) = #[trigger] s2[k];
            x as int == col || y as int == col
        } by {
            if k < s.len() {
                assert(s2[k] == s[k]);
            }
        }
    }
}

/// More facts of one layout step: the row is at least as wide as the lanes
/// were, every connector ends at the commit's column, and a commit without
/// parents draws no connector and shows its dot.
pub proof fn lemma_process_ends(active: Seq<Option<Oid>>, oid: Oid, parents: Seq<Oid>)
    requires
        process_spec(active, oid, parents).0 <= usize::MAX,
    ensures
        ({
            let (col, lanes, spans, after) = process_spec(active, oid, parents);
            &&& lanes.len() >= active.len()
            &&& spans_touch(spans, col)
            &&& parents.len() == 0 ==> spans.len() == 0 && lanes[col] == LaneSegment::Commit
        }),
{
    lemma_process_spec(active, oid, parents);
    lemma_find_holding(active, oid@);
    lemma_find_free(active);
    let (col, a1) = place(active, oid);
    assert(a1.len() >= active.len());
    let l0 = initial_segments(a1, col);
    let a2 = a1.update(col, None);
    if parents.len() > 0 {
        let fp = parents[0];
        lemma_find_holding(a2, fp@);
        let st1 = first_parent_state(a2, l0, col, fp);
        assert(st1.1.len() == l0.len());
        assert(spans_touch(st1.2, col));
        lemma_fork_all(st1, col, parents.drop_first());
        lemma_fork_all_touch(st1, col, parents.drop_first());
        let (a4, l2, s2) = fork_all(st1, col, parents.drop_first());
        lemma_fill(l2, s2);
    }
}

/// The laws of one layout step, stated over the model.
pub proof fn lemma_process_spec(active: Seq<Option<Oid>>, oid: Oid, parents: Seq<Oid>)
    ensures
        ({
            let (col, lanes, spans, after) = process_spec(active, oid, parents);
            &&& 0 <= col < lanes.len()
            &&& (find_holding(active, oid@) < active.len() ==> col == find_holding(active, oid@))
            &&& (find_holding(active, oid@) == active.len() ==> col == find_free(active))
            &&& lanes.len() >= after.len()
            &&& forall|i: int|
                0 <= i < active.len() && i != col && (#[trigger] active[i]) is Some ==> i
                    < after.len() && after[i] == active[i]
            &&& forall|k: int|
                0 <= k < parents.len() ==> exists|j: int|
                    0 <= j < after.len() && holds(#[trigger] after[j], (#[trigger] parents[k])@)
            &&& (after.len() == 0 || after.last() is Some)
        }),
{
    lemma_find_holding(active, oid@);
    lemma_find_free(active);
    let (col, a1) = place(active, oid);
    assert(0 <= col < a1.len());
    assert(a1.len() >= active.len());
    assert(forall|i: int| 0 <= i < active.len() && i != col ==> #[trigger] a1[i] == active[i]);
    let l0 = initial_segments(a1, col);
    let a2 = a1.update(col, None);
    let (rcol, lanes, spans, after) = process_spec(active, oid, parents);
    if parents.len() == 0 {
        lemma_trim_free(a2);
        assert forall|i: int|
            0 <= i < active.len() && i != col && (#[trigger] active[i]) is Some implies i
                < after.len() && after[i] == active[i] by {
            assert(a2[i] == active[i]);
            assert(after[i] == a2.take(after.len() as int)[i]);
        }
    } else {
        let fp = parents[0];
        let rest = parents.drop_first();
        lemma_find_holding(a2, fp@);
        let st1 = first_parent_state(a2, l0, col, fp);
        let ex = find_holding(a2, fp@);
        assert(exists|j: int| 0 <= j < st1.0.len() && holds(#[trigger] st1.0[j], fp@)) by {
            if ex < a2.len() {
                assert(holds(st1.0[ex], fp@));
            } else {
                assert(holds(st1.0[col], fp@));
            }
        }
        lemma_fork_all(st1, col, rest);
        let (a4, l2, s2) = fork_all(st1, col, rest);
        lemma_trim_free(a4);
        lemma_fill(l2, s2);
        assert forall|i: int|
            0 <= i < active.len() && i != col && (#[trigger] active[i]) is Some implies i
                < after.len() && after[i] == active[i] by {
            assert(st1.0[i] == active[i]);
            assert(a4[i] == st1.0[i]);
            assert(after[i] == a4.take(after.len() as int)[i]);
        }
        assert forall|k: int| 0 <= k < parents.len() implies exists|j: int|
            0 <= j < after.len() && holds(#[trigger] after[j], (#[trigger] parents[k])@) by {
            let j = if k == 0 {
                choose|j: int| 0 <= j < st1.0.len() && holds(#[trigger] st1.0[j], fp@)
            } else {
                assert(rest[k - 1] == parents[k]);
                choose|j: int| 0 <= j < a4.len() && holds(#[trigger] a4[j], (rest[k - 1])@)
            };
            if k == 0 {
                assert(a4[j] == st1.0[j]);
            }
            assert(a4[j] is Some);
            assert(after[j] == a4.take(after.len() as int)[j]);
            assert(holds(after[j], parents[k]@));
        }
    }
}

// ---------------------------------------------------------------------------
// Executable layout
// ---------------------------------------------------------------------------

/// Commit data read from the repository for one row of the graph.
#[derive(Debug)]
pub struct CommitInfo {
    pub oid: Oid,
    pub parent_oids: Vec<Oid>,
    /// First line of the commit message.
    pub message: String,
    pub author: String,
    /// Commit time, seconds since the Unix epoch.
    pub time: i64,
}

/// Labels attached to one commit.
#[derive(Debug)]
pub struct RefLabels {
    pub oid: Oid,
    pub labels: Vec<BranchLabel>,
}

/// Assigns lanes to commits, newest first.
#[derive(Debug)]
pub struct GraphBuilder {
    /// For each lane, the commit it is waiting for (`None`: free lane).
    pub active_lanes: Vec<Option<Oid>>,
}

fn lane_holds(lane: &Option<Oid>, oid: &Oid) -> (b: bool)
    ensures
        b == holds(*lane, oid@),
{
    match lane {
        Some(o) => o.same(oid),
        None => false,
    }
}

fn find_lane(active: &Vec<Option<Oid>>, oid: &Oid) -> (r: usize)
    ensures
        r == find_holding(active@, oid@),
{
    let mut i: usize = 0;
    while i < active.len()
        invariant
            i <= active@.len(),
            find_holding(active@, oid@) == find_holding_from(active@, oid@, i as int),
        decreases active@.len() - i,
    {
        if lane_holds(&active[i], oid) {
            return i;
        }
        i = i + 1;
    }
    i
}

fn put(active: &mut Vec<Option<Oid>>, c: usize, v: Option<Oid>)
    requires
        c <= old(active)@.len(),
    ensures
        final(active)@ == put_lane(old(active)@, c as int, v),
{
    if c < active.len() {
        active.set(c, v);
    } else {
        active.push(v);
    }
}

fn pad_lanes(lanes: &mut Vec<LaneSegment>, n: usize)
    ensures
        final(lanes)@ == pad_empty(old(lanes)@, n as int),
{
    let ghost l0 = lanes@;
    while lanes.len() < n
        invariant
            l0.len() <= lanes@.len(),
            lanes@.len() <= n || lanes@.len() == l0.len(),
            lanes@ == l0 + Seq::new((lanes@.len() - l0.len()) as nat, |i: int| LaneSegment::Empty),
        decreases n - lanes@.len(),
    {
        lanes.push(LaneSegment::Empty);
        assert(lanes@ =~= l0 + Seq::new((lanes@.len() - l0.len()) as nat, |i: int| LaneSegment::Empty));
    }
    proof {
        if l0.len() >= n {
            assert(lanes@ =~= l0);
        }
    }
}

fn fill_one(lanes: &mut Vec<LaneSegment>, sp: Span3)
    requires
        sp.0 < old(lanes)@.len(),
    ensures
        final(lanes)@ == fill_span(old(lanes)@, sp),
{
    let ghost l0 = lanes@;
    let (left, right, _c) = sp;
    if lanes[left] == LaneSegment::Straight {
        lanes.set(left, LaneSegment::RightTee);
    }
    if right < lanes.len() && right != left && lanes[right] == LaneSegment::Straight {
        lanes.set(right, LaneSegment::LeftTee);
    }
    let mut c = left + 1;
    while c < right
        invariant
            left < c,
            lanes@.len() == l0.len(),
            sp == (left, right, _c),
            forall|i: int| 0 <= i < l0.len() && (i < c || i >= right) ==> #[trigger] lanes@[i] == fill_at(l0, sp, i),
            forall|i: int| 0 <= i < l0.len() && c <= i < right ==> #[trigger] lanes@[i] == l0[i],
        decreases right - c,
    {
        if c < lanes.len() {
            if lanes[c] == LaneSegment::Straight {
                lanes.set(c, LaneSegment::CrossHorizontal);
            } else if lanes[c] == LaneSegment::Empty {
                lanes.set(c, LaneSegment::Horizontal);
            }
        }
        c = c + 1;
    }
    assert(lanes@ =~= fill_span(l0, sp));
}

impl GraphBuilder {
    /// A builder with no lanes.
    pub fn new() -> (g: GraphBuilder)
        ensures
            g.active_lanes@.len() == 0,
    {
        GraphBuilder { active_lanes: Vec::new() }
    }

    /// The first free lane, or the number of lanes when all are taken.
    pub fn find_free_lane(&self) -> (r: usize)
        ensures
            r == find_free(self.active_lanes@),
    {
        let mut i: usize = 0;
        while i < self.active_lanes.len()
            invariant
                i <= self.active_lanes@.len(),
                find_free(self.active_lanes@) == find_free_from(self.active_lanes@, i as int),
            decreases self.active_lanes@.len() - i,
        {
            if self.active_lanes[i].is_none() {
                return i;
            }
            i = i + 1;
        }
        i
    }

    /// Lays out one commit: returns its column, the segments of its row and
    /// the connectors drawn in the row, and updates the awaited lanes.
    pub fn process_commit(&mut self, oid: &Oid, parent_oids: &Vec<Oid>) -> (res: (usize, Vec<LaneSegment>, Vec<Span3>))
        ensures
            (res.0 as int, res.1@, res.2@, final(self).active_lanes@) == process_spec(
                old(self).active_lanes@,
                *oid,
                parent_oids@,
            ),
            // the commit's own column is inside its row
            res.0 < res.1@.len(),
            // the commit is drawn in the first lane that awaited it
            find_holding(old(self).active_lanes@, oid@) < old(self).active_lanes@.len() ==> res.0
                == find_holding(old(self).active_lanes@, oid@),
            // otherwise it takes the first free lane
            find_holding(old(self).active_lanes@, oid@) == old(self).active_lanes@.len() ==> res.0
                == find_free(old(self).active_lanes@),
            // every connector joins two lanes of the row, left to right
            spans_fit(res.2@, res.1@.len() as int),
            // the row shows every lane that still awaits a commit
            res.1@.len() >= final(self).active_lanes@.len(),
            // lanes that await other commits keep their place
            forall|i: int|
                0 <= i < old(self).active_lanes@.len() && i != res.0
                    && (#[trigger] old(self).active_lanes@[i]) is Some
                    ==> i < final(self).active_lanes@.len()
                    && final(self).active_lanes@[i] == old(self).active_lanes@[i],
            // afterwards every parent is awaited by some lane
            forall|k: int|
                0 <= k < parent_oids@.len() ==> exists|j: int|
                    0 <= j < final(self).active_lanes@.len() && holds(
                        #[trigger] final(self).active_lanes@[j],
                        (#[trigger] parent_oids@[k])@,
                    ),
            // no trailing free lane is kept
            final(self).active_lanes@.len() == 0 || final(self).active_lanes@.last() is Some,
            // the row is at least as wide as the lanes were
            res.1@.len() >= old(self).active_lanes@.len(),
            // every connector ends at the commit's column
            spans_touch(res.2@, res.0 as int),
            // a commit without parents draws no connector and shows its dot
            parent_oids@.len() == 0 ==> res.2@.len() == 0 && res.1@[res.0 as int] == LaneSegment::Commit,
    {
        let ghost a0 = self.active_lanes@;
        proof {
            lemma_find_holding(a0, oid@);
            lemma_find_free(a0);
        }
        let found = find_lane(&self.active_lanes, oid);
        let commit_col = if found < self.active_lanes.len() {
            found
        } else {
            let col = self.find_free_lane();
            put(&mut self.active_lanes, col, Some(oid.clone()));
            col
        };
        let ghost a1 = self.active_lanes@;
        assert((commit_col as int, a1) == place(a0, *oid));
        // segments before connectors
        let n = self.active_lanes.len();
        let mut lanes: Vec<LaneSegment> = Vec::new();
        let mut i: usize = 0;
        while i < n
            invariant
                n == a1.len(),
                self.active_lanes@ == a1,
                i <= n,
                commit_col < n,
                lanes@ == initial_segments(a1, commit_col as int).take(i as int),
            decreases n - i,
        {
            let seg = if i == commit_col {
                LaneSegment::Commit
            } else if self.active_lanes[i].is_some() {
                LaneSegment::Straight
            } else {
                LaneSegment::Empty
            };
            lanes.push(seg);
            i = i + 1;
            assert(lanes@ =~= initial_segments(a1, commit_col as int).take(i as int));
        }
        assert(lanes@ =~= initial_segments(a1, commit_col as int));
        let ghost l0 = lanes@;
        self.active_lanes.set(commit_col, None);
        let ghost a2 = self.active_lanes@;
        let mut spans: Vec<Span3> = Vec::new();
        if parent_oids.len() > 0 {
            let first_parent = &parent_oids[0];
            proof {
                lemma_find_holding(a2, first_parent@);
            }
            let existing = find_lane(&self.active_lanes, first_parent);
            if existing < self.active_lanes.len() {
                if existing < commit_col {
                    lanes.set(commit_col, LaneSegment::MergeLeft);
                    spans.push((existing, commit_col, lane_color(commit_col)));
                } else if existing > commit_col {
                    lanes.set(commit_col, LaneSegment::MergeRight);
                    spans.push((commit_col, existing, lane_color(commit_col)));
                }
            } else {
                self.active_lanes.set(commit_col, Some(first_parent.clone()));
            }
            let ghost st1 = (self.active_lanes@, lanes@, spans@);
            assert(st1 =~= first_parent_state(a2, l0, commit_col as int, *first_parent));
            assert(spans_fit(spans@, lanes@.len() as int)) by {
                if existing < a2.len() {
                    assert(existing != commit_col);
                }
            }
            let ghost rest = parent_oids@.drop_first();
            let mut k: usize = 1;
            while k < parent_oids.len()
                invariant
                    1 <= k <= parent_oids@.len(),
                    rest == parent_oids@.drop_first(),
                    commit_col < l0.len(),
                    l0.len() == a2.len(),
                    st1.1.len() == l0.len(),
                    st1.0.len() == a2.len(),
                    (self.active_lanes@, lanes@, spans@) == fork_all(st1, commit_col as int, rest.take(k - 1)),
                    spans_fit(spans@, lanes@.len() as int),
                    lanes@.len() >= self.active_lanes@.len(),
                    commit_col < lanes@.len(),
                decreases parent_oids@.len() - k,
            {
                let p = &parent_oids[k];
                let ghost before = (self.active_lanes@, lanes@, spans@);
                proof {
                    assert(lanes@.len() == lanes.len());
                    assert(self.active_lanes@.len() == self.active_lanes.len());
                    lemma_find_holding(self.active_lanes@, p@);
                    lemma_find_free(self.active_lanes@);
                    assert(rest.take(k as int).drop_last() =~= rest.take(k - 1));
                    assert(rest.take(k as int).last() == *p);
                }
                let existing = find_lane(&self.active_lanes, p);
                if existing >= self.active_lanes.len() {
                    let new_col = self.find_free_lane();
                    put(&mut self.active_lanes, new_col, Some(p.clone()));
                    assert(new_col < self.active_lanes.len());
                    pad_lanes(&mut lanes, new_col + 1);
                    if new_col > commit_col {
                        lanes.set(new_col, LaneSegment::ForkRight);
                        spans.push((commit_col, new_col, lane_color(new_col)));
                    } else {
                        lanes.set(new_col, LaneSegment::ForkLeft);
                        spans.push((new_col, commit_col, lane_color(new_col)));
                    }
                }
                proof {
                    lemma_fork_step(before, commit_col as int, *p);
                }
                assert((self.active_lanes@, lanes@, spans@) =~= fork_step(before, commit_col as int, *p));
                k = k + 1;
            }
            assert(rest.take(k - 1) =~= rest);
        }
        let ghost a4 = self.active_lanes@;
        let ghost l2 = lanes@;
        let ghost s2 = spans@;
        // horizontal connectors
        let mut si: usize = 0;
        while si < spans.len()
            invariant
                si <= s2.len(),
                spans@ == s2,
                spans_fit(s2, l2.len() as int),
                lanes@ == fill(l2, s2.take(si as int)),
                lanes@.len() == l2.len(),
            decreases s2.len() - si,
        {
            let sp = spans[si];
            proof {
                assert(s2.take(si + 1).drop_last() =~= s2.take(si as int));
                let t = s2[si as int];
                assert(t.0 <= t.1 && (t.1 as int) < l2.len());
            }
            fill_one(&mut lanes, sp);
            si = si + 1;
            proof {
                lemma_fill(l2, s2.take(si as int));
            }
        }
        assert(s2.take(si as int) =~= s2);
        // drop trailing free lanes
        while self.active_lanes.len() > 0 && self.active_lanes[self.active_lanes.len() - 1].is_none()
            invariant
                trim_free(a4) == trim_free(self.active_lanes@),
            decreases self.active_lanes@.len(),
        {
            let ghost before = self.active_lanes@;
            self.active_lanes.pop();
            assert(self.active_lanes@ =~= before.drop_last());
        }
        assert(trim_free(self.active_lanes@) == self.active_lanes@);
        proof {
            lemma_process_spec(a0, *oid, parent_oids@);
            lemma_process_ends(a0, *oid, parent_oids@);
        }
        (commit_col, lanes, spans)
    }
}

} // verus!

verus! {

/// Layouts of successive commits starting from the lanes `active`:
/// `(column, segments, connectors)` per commit, and the lanes afterwards.
pub open spec fn layouts(active: Seq<Option<Oid>>, commits: Seq<CommitInfo>) -> (Seq<(int, Seq<LaneSegment>, Seq<Span3>)>, Seq<Option<Oid>>)
    decreases commits.len(),
{
    if commits.len() == 0 {
        (Seq::empty(), active)
    } else {
        let (ls, a) = layouts(active, commits.drop_last());
        let c = commits.last();
        let (col, lanes, spans, a2) = process_spec(a, c.oid, c.parent_oids@);
        (ls.push((col, lanes, spans)), a2)
    }
}

/// Index of the first entry of `refs` for the commit `id`, or `refs.len()`.
pub open spec fn find_ref_from(refs: Seq<RefLabels>, id: Seq<char>, i: int) -> int
    decreases refs.len() - i,
{
    if i >= refs.len() {
        refs.len() as int
    } else if refs[i].oid@ == id {
        i
    } else {
        find_ref_from(refs, id, i + 1)
    }
}

/// Labels handed to the commit `id`: those of the first entry naming it,
/// which is then used up; no labels when no entry names it.
pub open spec fn take_labels(refs: Seq<RefLabels>, id: Seq<char>) -> (Seq<BranchLabel>, Seq<RefLabels>) {
    let k = find_ref_from(refs, id, 0);
    if k < refs.len() {
        (refs[k].labels@, refs.remove(k))
    } else {
        (Seq::empty(), refs)
    }
}

/// Labels handed to successive commits, and the entries left over.
pub open spec fn label_takes(refs: Seq<RefLabels>, commits: Seq<CommitInfo>) -> (Seq<Seq<BranchLabel>>, Seq<RefLabels>)
    decreases commits.len(),
{
    if commits.len() == 0 {
        (Seq::empty(), refs)
    } else {
        let (ls, r) = label_takes(refs, commits.drop_last());
        let (l, r2) = take_labels(r, commits.last().oid@);
        (ls.push(l), r2)
    }
}

/// Whether some id of `ids` denotes the commit `id`.
pub open spec fn contains_oid(ids: Seq<Oid>, id: Seq<char>) -> bool {
    exists|j: int| 0 <= j < ids.len() && (#[trigger] ids[j])@ == id
}

fn find_ref(refs: &Vec<RefLabels>, oid: &Oid) -> (r: usize)
    ensures
        r == find_ref_from(refs@, oid@, 0),
{
    let mut i: usize = 0;
    while i < refs.len()
        invariant
            i <= refs@.len(),
            find_ref_from(refs@, oid@, 0) == find_ref_from(refs@, oid@, i as int),
        decreases refs@.len() - i,
    {
        if refs[i].oid.same(oid) {
            return i;
        }
        i = i + 1;
    }
    i
}

/// Whether `ids` holds an id denoting the commit `oid`.
pub fn oids_contain(ids: &Vec<Oid>, oid: &Oid) -> (b: bool)
    ensures
        b == contains_oid(ids@, oid@),
{
    let mut i: usize = 0;
    while i < ids.len()
        invariant
            i <= ids@.len(),
            forall|j: int| 0 <= j < i ==> (#[trigger] ids@[j])@ != oid@,
        decreases ids@.len() - i,
    {
        if ids[i].same(oid) {
            return true;
        }
        i = i + 1;
    }
    false
}

impl GraphBuilder {
    /// Builds the graph rows for `commits` (newest first, at most
    /// [`MAX_COMMITS`] of them), attaching `refs` labels and marking the
    /// commits found in `pushed`.
    pub fn build(self, commits: Vec<CommitInfo>, refs: Vec<RefLabels>, pushed: &Vec<Oid>) -> (rows: Vec<GraphRow>)
        ensures
            rows@.len() == (if commits@.len() <= MAX_COMMITS { commits@.len() } else { MAX_COMMITS as nat }),
            forall|i: int|
                0 <= i < rows@.len() ==> {
                    let r = #[trigger] rows@[i];
                    let c = commits@[i];
                    let lay = layouts(self.active_lanes@, commits@.take(rows@.len() as int)).0[i];
                    &&& r.commit_col as int == lay.0
                    &&& r.lanes@ == lay.1
                    &&& r.horizontal_spans@ == lay.2
                    &&& r.oid == c.oid
                    &&& r.short_id@ == c.oid@.take(7)
                    &&& r.message == c.message
                    &&& r.author == c.author
                    &&& r.time == c.time
                    &&& r.labels@ == label_takes(refs@, commits@.take(rows@.len() as int)).0[i]
                    &&& r.is_pushed == contains_oid(pushed@, c.oid@)
                    &&& r.is_merge == (c.parent_oids@.len() > 1)
                    &&& r.parent_oids@ == c.parent_oids@
                    &&& r.diff_stat is None
                    &&& r.collapsed is None
                },
    {
        let mut builder = self;
        let ghost a0 = builder.active_lanes@;
        let n = if commits.len() <= MAX_COMMITS { commits.len() } else { MAX_COMMITS };
        let ghost cs = commits@.take(n as int);
        let mut refs = refs;
        let ghost refs0 = refs@;
        let mut rows: Vec<GraphRow> = Vec::new();
        let mut i: usize = 0;
        while i < n
            invariant
                n <= commits@.len(),
                cs == commits@.take(n as int),
                i <= n,
                rows@.len() == i,
                layouts(a0, cs.take(i as int)).1 == builder.active_lanes@,
                label_takes(refs0, cs.take(i as int)).1 == refs@,
                forall|j: int|
                    0 <= j < i ==> {
                        let r = #[trigger] rows@[j];
                        let c = commits@[j];
                        let lay = layouts(a0, cs.take(i as int)).0[j];
                        &&& r.commit_col as int == lay.0
                        &&& r.lanes@ == lay.1
                        &&& r.horizontal_spans@ == lay.2
                        &&& r.oid == c.oid
                        &&& r.short_id@ == c.oid@.take(7)
                        &&& r.message == c.message
                        &&& r.author == c.author
                        &&& r.time == c.time
                        &&& r.labels@ == label_takes(refs0, cs.take(i as int)).0[j]
                        &&& r.is_pushed == contains_oid(pushed@, c.oid@)
                        &&& r.is_merge == (c.parent_oids@.len() > 1)
                        &&& r.parent_oids@ == c.parent_oids@
                        &&& r.diff_stat is None
                        &&& r.collapsed is None
                    },
                layouts(a0, cs.take(i as int)).0.len() == i,
                label_takes(refs0, cs.take(i as int)).0.len() == i,
            decreases n - i,
        {
            let c = &commits[i];
            let ghost prev_lay = layouts(a0, cs.take(i as int));
            let ghost prev_lab = label_takes(refs0, cs.take(i as int));
            proof {
                assert(cs.take(i + 1).drop_last() =~= cs.take(i as int));
                assert(cs.take(i + 1).last() == commits@[i as int]);
            }
            let (col, lanes, spans) = builder.process_commit(&c.oid, &c.parent_oids);
            let k = find_ref(&refs, &c.oid);
            let labels = if k < refs.len() {
                let entry = refs.remove(k);
                entry.labels
            } else {
                Vec::new()
            };
            let row = GraphRow {
                commit_col: col,
                lanes,
                oid: c.oid.clone(),
                short_id: c.oid.short_hex(),
                message: c.message.clone(),
                author: c.author.clone(),
                time: c.time,
                labels,
                is_pushed: oids_contain(pushed, &c.oid),
                is_merge: c.parent_oids.len() > 1,
                horizontal_spans: spans,
                parent_oids: clone_oids(&c.parent_oids),
                diff_stat: None,
                collapsed: None,
            };
            rows.push(row);
            i = i + 1;
            proof {
                let lay = layouts(a0, cs.take(i as int));
                let lab = label_takes(refs0, cs.take(i as int));
                assert(lay.0 == prev_lay.0.push(lay.0[i - 1]));
                assert(lab.0 == prev_lab.0.push(lab.0[i - 1]));
                assert(labels@ =~= lab.0[i - 1]);
                assert forall|j: int| 0 <= j < i implies {
                    let r = #[trigger] rows@[j];
                    let c = commits@[j];
                    let lay = layouts(a0, cs.take(i as int)).0[j];
                    &&& r.commit_col as int == lay.0
                    &&& r.lanes@ == lay.1
                    &&& r.horizontal_spans@ == lay.2
                    &&& r.oid == c.oid
                    &&& r.short_id@ == c.oid@.take(7)
                    &&& r.message == c.message
                    &&& r.author == c.author
                    &&& r.time == c.time
                    &&& r.labels@ == label_takes(refs0, cs.take(i as int)).0[j]
                    &&& r.is_pushed == contains_oid(pushed@, c.oid@)
                    &&& r.is_merge == (c.parent_oids@.len() > 1)
                    &&& r.parent_oids@ == c.parent_oids@
                    &&& r.diff_stat is None
                    &&& r.collapsed is None
                } by {
                    if j < i - 1 {
                        assert(lay.0[j] == prev_lay.0[j]);
                        assert(lab.0[j] == prev_lab.0[j]);
                    }
                }
            }
        }
        assert(cs.take(n as int) =~= cs);
        rows
    }
}

} // verus!
