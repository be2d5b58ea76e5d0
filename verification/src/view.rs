//! The commit-graph view: search over the shown rows, and collapsing branch
//! segments into placeholder rows.
use vstd::prelude::*;
use crate::graph::{GraphRow, RowView};
use crate::segments::BranchSegment;
use crate::text::{
    contains_chars, contains_seq, decimal, lowercase, owned, push_decimal, push_str, str_chars, str_eq,
    string_views, to_lowercase,
};

verus! {

// ---------------------------------------------------------------------------
// Search
// ---------------------------------------------------------------------------

/// Search state of the graph view.
#[derive(Debug)]
pub struct SearchState {
    pub visible: bool,
    pub input: String,
    /// Rows that match, in order.
    pub matches: Vec<usize>,
    /// Position in `matches` of the current match.
    pub current_match: Option<usize>,
}

/// Position of the match after `current` among `n` matches, wrapping
/// around (the first when none is current).
pub open spec fn next_match_index(current: Option<usize>, n: int) -> int {
    match current {
        Some(i) => (i + 1) % n,
        None => 0,
    }
}

/// Position of the match before `current` among `n` matches, wrapping
/// around (the last when none is current).
pub open spec fn prev_match_index(current: Option<usize>, n: int) -> int {
    match current {
        Some(i) => if i == 0 { n - 1 } else { i - 1 },
        None => n - 1,
    }
}

impl SearchState {
    /// Closed, with no query.
    pub fn new() -> (r: Self)
        ensures
            !r.visible,
            r.input@.len() == 0,
            r.matches@.len() == 0,
            r.current_match is None,
    {
        SearchState { visible: false, input: String::new(), matches: Vec::new(), current_match: None }
    }

    /// Closes the search and forgets the query.
    pub fn clear(&mut self)
        ensures
            !final(self).visible,
            final(self).input@.len() == 0,
            final(self).matches@.len() == 0,
            final(self).current_match is None,
    {
        self.visible = false;
        self.input = String::new();
        self.matches = Vec::new();
        self.current_match = None;
    }

    /// Opens the search with an empty query.
    pub fn open(&mut self)
        ensures
            final(self).visible,
            final(self).input@.len() == 0,
            final(self).matches@.len() == 0,
            final(self).current_match is None,
    {
        self.visible = true;
        self.input = String::new();
        self.matches = Vec::new();
        self.current_match = None;
    }

    /// New matches; the first becomes current.
    pub fn set_matches(&mut self, matches: Vec<usize>)
        ensures
            final(self).matches == matches,
            final(self).current_match == (if matches@.len() > 0 { Some(0usize) } else { None }),
            final(self).visible == old(self).visible,
            final(self).input == old(self).input,
    {
        self.current_match = if matches.len() > 0 {
            Some(0)
        } else {
            None
        };
        self.matches = matches;
    }

    /// Moves to the next match, wrapping around; answers its row.
    pub fn next_match(&mut self) -> (r: Option<usize>)
        ensures
            final(self).matches == old(self).matches,
            final(self).visible == old(self).visible,
            final(self).input == old(self).input,
            old(self).matches@.len() == 0 ==> r is None && final(self).current_match == old(self).current_match,
            old(self).matches@.len() > 0 ==> {
                let next = next_match_index(old(self).current_match, old(self).matches@.len() as int);
                &&& final(self).current_match == Some(next as usize)
                &&& r == Some(old(self).matches@[next])
            },
    {
        let n = self.matches.len();
        if n == 0 {
            return None;
        }
        let next = match self.current_match {
            Some(i) => (i % n + 1) % n,
            None => 0,
        };
        proof {
            match self.current_match {
                Some(i) => {
                    let a = i as int;
                    let m = n as int;
                    assert(((a % m) + 1) % m == (a + 1) % m) by (nonlinear_arith)
                        requires
                            m > 0,
                    ;
                },
                None => {},
            }
        }
        self.current_match = Some(next);
        Some(self.matches[next])
    }

    /// Moves to the previous match, wrapping around; answers its row.
    pub fn prev_match(&mut self) -> (r: Option<usize>)
        requires
            old(self).current_match matches Some(i) ==> i <= old(self).matches@.len(),
        ensures
            final(self).matches == old(self).matches,
            final(self).visible == old(self).visible,
            final(self).input == old(self).input,
            old(self).matches@.len() == 0 ==> r is None && final(self).current_match == old(self).current_match,
            old(self).matches@.len() > 0 ==> {
                let prev = prev_match_index(old(self).current_match, old(self).matches@.len() as int);
                &&& final(self).current_match == Some(prev as usize)
                &&& r == Some(old(self).matches@[prev])
            },
    {
        let n = self.matches.len();
        if n == 0 {
            return None;
        }
        let prev = match self.current_match {
            Some(i) => if i == 0 {
                n - 1
            } else {
                i - 1
            },
            None => n - 1,
        };
        self.current_match = Some(prev);
        Some(self.matches[prev])
    }
}

/// Whether a row matches the lower-cased query `q` in its message, author
/// or short id, ignoring case.
pub open spec fn row_matches(row: GraphRow, q: Seq<char>) -> bool {
    contains_seq(lowercase(row.message@), q) || contains_seq(lowercase(row.author@), q) || contains_seq(
        lowercase(row.short_id@),
        q,
    )
}

/// Matching rows among the first `n`, in order.
pub open spec fn matches_upto(rows: Seq<GraphRow>, q: Seq<char>, n: int) -> Seq<usize>
    decreases n,
{
    if n <= 0 {
        Seq::empty()
    } else if row_matches(rows[n - 1], q) {
        matches_upto(rows, q, n - 1).push((n - 1) as usize)
    } else {
        matches_upto(rows, q, n - 1)
    }
}

/// Rows matching a query, ignoring case; none for an empty query.
pub open spec fn matching_rows_spec(input: Seq<char>, rows: Seq<GraphRow>) -> Seq<usize> {
    if input.len() == 0 {
        Seq::empty()
    } else {
        matches_upto(rows, lowercase(input), rows.len() as int)
    }
}

fn field_matches(field: &String, q: &Vec<char>) -> (r: bool)
    ensures
        r == contains_seq(lowercase(field@), q@),
{
    let low = to_lowercase(field.as_str());
    let v = str_chars(low.as_str());
    contains_chars(v.as_slice(), q.as_slice())
}

/// Indices of the rows whose message, author or short id contains the
/// query, ignoring case.
pub fn matching_rows(input: &str, rows: &Vec<GraphRow>) -> (r: Vec<usize>)
    ensures
        r@ == matching_rows_spec(input@, rows@),
{
    if input.unicode_len() == 0 {
        return Vec::new();
    }
    let query = to_lowercase(input);
    let q = str_chars(query.as_str());
    let mut out: Vec<usize> = Vec::new();
    let mut i: usize = 0;
    while i < rows.len()
        invariant
            i <= rows@.len(),
            q@ == lowercase(input@),
            out@ == matches_upto(rows@, q@, i as int),
        decreases rows@.len() - i,
    {
        let row = &rows[i];
        if field_matches(&row.message, &q) || field_matches(&row.author, &q) || field_matches(&row.short_id, &q) {
            out.push(i);
        }
        i = i + 1;
    }
    out
}

// ---------------------------------------------------------------------------
// Collapsing branch segments
// ---------------------------------------------------------------------------

/// Whether segment `s` is collapsed.
pub open spec fn seg_collapsed(segs: Seq<BranchSegment>, collapsed: Seq<String>, s: int) -> bool {
    string_views(collapsed).contains(segs[s].id@)
}

/// Whether row `i` belongs to a collapsed segment.
pub open spec fn row_hidden(segs: Seq<BranchSegment>, collapsed: Seq<String>, i: int) -> bool {
    exists|s: int, k: int|
        0 <= s < segs.len() && seg_collapsed(segs, collapsed, s) && 0 <= k < segs[s].row_indices@.len()
            && #[trigger] segs[s].row_indices@[k] == i
}

/// First collapsed segment, from `s` on, whose tip is row `i` (or `segs.len()`).
pub open spec fn tip_segment(segs: Seq<BranchSegment>, collapsed: Seq<String>, i: int, s: int) -> int
    decreases segs.len() - s,
{
    if s < 0 || s >= segs.len() {
        segs.len() as int
    } else if seg_collapsed(segs, collapsed, s) && segs[s].row_indices@[0] == i {
        s
    } else {
        tip_segment(segs, collapsed, i, s + 1)
    }
}

/// Rows shown for the first `n` rows, as (row, placeholder segment or -1).
pub open spec fn shown_rows(segs: Seq<BranchSegment>, collapsed: Seq<String>, n: int) -> Seq<(int, int)>
    decreases n,
{
    if n <= 0 {
        Seq::empty()
    } else {
        let i = n - 1;
        let prev = shown_rows(segs, collapsed, i);
        if row_hidden(segs, collapsed, i) {
            let t = tip_segment(segs, collapsed, i, 0);
            if t < segs.len() { prev.push((i, t)) } else { prev }
        } else {
            prev.push((i, -1))
        }
    }
}

/// Text of a placeholder: `▶ name (count commits)`.
pub open spec fn placeholder_text(name: Seq<char>, count: nat) -> Seq<char> {
    "\u{25b6} "@ + name + " ("@ + decimal(count) + " commits)"@
}

/// A placeholder for segment `seg` standing in for `row`: the row with the
/// segment's text as message, no id, author, labels or stats, and marked
/// with the segment's id and size.
pub open spec fn is_placeholder(p: RowView, row: RowView, seg: BranchSegment) -> bool {
    &&& p.commit_col == row.commit_col
    &&& p.lanes == row.lanes
    &&& p.oid == row.oid
    &&& p.time == row.time
    &&& p.is_pushed == row.is_pushed
    &&& p.is_merge == row.is_merge
    &&& p.horizontal_spans == row.horizontal_spans
    &&& p.parent_oids == row.parent_oids
    &&& p.message@ == placeholder_text(seg.display_name@, seg.row_indices@.len())
    &&& p.short_id@.len() == 0
    &&& p.author@.len() == 0
    &&& p.labels.len() == 0
    &&& p.diff_stat is None
    &&& p.collapsed matches Some((id, count)) && id@ == seg.id@ && count == seg.row_indices@.len()
}

/// Whether `out` are the rows shown for `rows` with the collapsed segments
/// folded: rows of a collapsed segment disappear, except that the
/// segment's tip row is replaced by a placeholder.
pub open spec fn collapsed_rows_spec(
    rows: Seq<GraphRow>,
    segs: Seq<BranchSegment>,
    collapsed: Seq<String>,
    out: Seq<GraphRow>,
) -> bool {
    let sr = shown_rows(segs, collapsed, rows.len() as int);
    &&& out.len() == sr.len()
    &&& forall|j: int|
        0 <= j < sr.len() ==> {
            let (i, s) = #[trigger] sr[j];
            if s < 0 {
                out[j]@ == rows[i]@
            } else {
                is_placeholder(out[j]@, rows[i]@, segs[s])
            }
        }
}

/// Segments with at least one row each.
pub open spec fn segments_nonempty(segs: Seq<BranchSegment>) -> bool {
    forall|s: int| 0 <= s < segs.len() ==> (#[trigger] segs[s]).row_indices@.len() > 0
}

proof fn lemma_shown_rows_range(segs: Seq<BranchSegment>, collapsed: Seq<String>, n: int)
    requires
        n >= 0,
    ensures
        forall|j: int|
            0 <= j < shown_rows(segs, collapsed, n).len() ==> {
                let (i, s) = #[trigger] shown_rows(segs, collapsed, n)[j];
                0 <= i < n && s < segs.len()
            },
    decreases n,
{
    if n > 0 {
        lemma_shown_rows_range(segs, collapsed, n - 1);
        let prev = shown_rows(segs, collapsed, n - 1);
        let cur = shown_rows(segs, collapsed, n);
        assert forall|j: int| 0 <= j < cur.len() implies {
            let (i, s) = #[trigger] cur[j];
            0 <= i < n && s < segs.len()
        } by {
            if j < prev.len() {
                assert(cur[j] == prev[j]);
            }
        }
    }
}

fn seg_is_collapsed(seg: &BranchSegment, collapsed: &Vec<String>) -> (r: bool)
    ensures
        r == string_views(collapsed@).contains(seg.id@),
{
    crate::text::contains_string(collapsed, seg.id.as_str())
}

/// Whether row `i` lies in a collapsed segment.
fn row_hidden_exec(segs: &Vec<BranchSegment>, collapsed: &Vec<String>, i: usize) -> (r: bool)
    ensures
        r == row_hidden(segs@, collapsed@, i as int),
{
    let mut s: usize = 0;
    while s < segs.len()
        invariant
            s <= segs@.len(),
            forall|s2: int, k: int|
                0 <= s2 < s && seg_collapsed(segs@, collapsed@, s2) && 0 <= k < segs@[s2].row_indices@.len()
                    ==> #[trigger] segs@[s2].row_indices@[k] != i,
        decreases segs@.len() - s,
    {
        if seg_is_collapsed(&segs[s], collapsed) {
            let ri = &segs[s].row_indices;
            let mut k: usize = 0;
            while k < ri.len()
                invariant
                    s < segs@.len(),
                    seg_collapsed(segs@, collapsed@, s as int),
                    k <= ri@.len(),
                    ri@ == segs@[s as int].row_indices@,
                    forall|k2: int| 0 <= k2 < k ==> ri@[k2] != i,
                decreases ri@.len() - k,
            {
                if ri[k] == i {
                    assert(segs@[s as int].row_indices@[k as int] == i);
                    assert(row_hidden(segs@, collapsed@, i as int));
                    return true;
                }
                k = k + 1;
            }
        }
        s = s + 1;
    }
    false
}

/// First collapsed segment whose tip is row `i`.
fn tip_segment_exec(segs: &Vec<BranchSegment>, collapsed: &Vec<String>, i: usize) -> (r: usize)
    requires
        segments_nonempty(segs@),
    ensures
        r == tip_segment(segs@, collapsed@, i as int, 0),
        r <= segs@.len(),
{
    let mut s: usize = 0;
    while s < segs.len()
        invariant
            s <= segs@.len(),
            segments_nonempty(segs@),
            tip_segment(segs@, collapsed@, i as int, 0) == tip_segment(segs@, collapsed@, i as int, s as int),
        decreases segs@.len() - s,
    {
        assert(segs@[s as int].row_indices@.len() > 0);
        if seg_is_collapsed(&segs[s], collapsed) && segs[s].row_indices[0] == i {
            return s;
        }
        s = s + 1;
    }
    s
}

/// A placeholder row for segment `seg` standing in for `row`.
fn make_placeholder(row: &GraphRow, seg: &BranchSegment) -> (p: GraphRow)
    ensures
        is_placeholder(p@, row@, *seg),
{
    let mut p = row.duplicate();
    let count = seg.row_indices.len();
    let mut text = owned("\u{25b6} ");
    push_str(&mut text, seg.display_name.as_str());
    push_str(&mut text, " (");
    push_decimal(&mut text, count as u64);
    push_str(&mut text, " commits)");
    p.message = text;
    p.short_id = String::new();
    p.author = String::new();
    p.labels = Vec::new();
    p.diff_stat = None;
    p.collapsed = Some((seg.id.clone(), count));
    p
}

/// The rows shown when the segments in `collapsed_branches` are folded:
/// each collapsed segment's rows disappear and its tip row is replaced by a
/// placeholder naming the segment and counting its commits.
pub fn collapsed_rows(all_rows: &Vec<GraphRow>, segments: &Vec<BranchSegment>, collapsed_branches: &Vec<String>) -> (r: Vec<GraphRow>)
    requires
        segments_nonempty(segments@),
    ensures
        collapsed_rows_spec(all_rows@, segments@, collapsed_branches@, r@),
{
    let mut out: Vec<GraphRow> = Vec::new();
    let mut i: usize = 0;
    while i < all_rows.len()
        invariant
            i <= all_rows@.len(),
            segments_nonempty(segments@),
            ({
                let sr = shown_rows(segments@, collapsed_branches@, i as int);
                &&& out@.len() == sr.len()
                &&& forall|j: int|
                    0 <= j < sr.len() ==> {
                        let (a, s) = #[trigger] sr[j];
                        if s < 0 {
                            out@[j]@ == all_rows@[a]@
                        } else {
                            is_placeholder(out@[j]@, all_rows@[a]@, segments@[s])
                        }
                    }
            }),
        decreases all_rows@.len() - i,
    {
        proof {
            lemma_shown_rows_range(segments@, collapsed_branches@, i as int);
        }
        let ghost prev = shown_rows(segments@, collapsed_branches@, i as int);
        let ghost before = out@;
        if row_hidden_exec(segments, collapsed_branches, i) {
            let t = tip_segment_exec(segments, collapsed_branches, i);
            if t < segments.len() {
                let p = make_placeholder(&all_rows[i], &segments[t]);
                out.push(p);
                proof {
                    let sr = shown_rows(segments@, collapsed_branches@, i + 1);
                    assert(sr == prev.push((i as int, t as int)));
                    assert forall|j: int| 0 <= j < sr.len() implies {
                        let (a, s) = #[trigger] sr[j];
                        if s < 0 {
                            out@[j]@ == all_rows@[a]@
                        } else {
                            is_placeholder(out@[j]@, all_rows@[a]@, segments@[s])
                        }
                    } by {
                        if j < prev.len() {
                            assert(sr[j] == prev[j]);
                            assert(out@[j] == before[j]);
                        }
                    }
                }
            }
        } else {
            out.push(all_rows[i].duplicate());
            proof {
                let sr = shown_rows(segments@, collapsed_branches@, i + 1);
                assert(sr == prev.push((i as int, -1)));
                assert forall|j: int| 0 <= j < sr.len() implies {
                    let (a, s) = #[trigger] sr[j];
                    if s < 0 {
                        out@[j]@ == all_rows@[a]@
                    } else {
                        is_placeholder(out@[j]@, all_rows@[a]@, segments@[s])
                    }
                } by {
                    if j < prev.len() {
                        assert(sr[j] == prev[j]);
                        assert(out@[j] == before[j]);
                    }
                }
            }
        }
        i = i + 1;
    }
    out
}

} // verus!
