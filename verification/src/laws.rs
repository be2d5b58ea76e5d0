//! Properties that hold across the library's operations.
use vstd::prelude::*;
use vstd::arithmetic::div_mod::{lemma_add_mod_noop, lemma_mod_self_0, lemma_small_mod};
use crate::graph::GraphRow;
use crate::helpers::{b64_group, base64_spec};
use crate::input::edit_spec;
use crate::remote::{first_remote_web_url, remote_web_url, RemoteUrls, github_web_url_spec, host_allowed, is_safe_url_segment_spec, owner_and_repo, split_git_remote_spec, web_url};
use crate::render::{
    ascii_widths_known, ellipsize, fit_from, lemma_cut_index, lemma_fit, lemma_plain_span_cols, lemma_plain_text_cols,
    plain_ascii_line, repeat_char, Style, branch_labels_spec, fg, label_kind, label_text, labels_upto, Color, char_columns, cut_index, h_scroll_spec, lemma_text_cols_append, line_text, skip_spans, lemma_ellipsize_cols, lemma_text_cols_nonneg, line_cols, text_cols, truncate_spec, width_upto, SpanView,
};
use crate::segments::{in_trunk, fp_idx, lemma_connected_link, lemma_connected_refl, linked, segments_spec, side_row, BranchSegment};
use crate::text::trim_spec;
use crate::ui::{next_selectable, prev_selectable, FocusPanel, KeyCode, KeyEvent};
use crate::routing::{key_route, next_focus, prev_focus, KeyContext, KeyRoute, HELP_PAGE_COUNT};
use crate::view::{matches_upto, matching_rows_spec, next_match_index, prev_match_index, row_matches};
use crate::text::{lowercase, string_views};
use crate::paths::file_name_spec;
use crate::status::{file_status_spec, FileStatus, StatusFlags};
use crate::graph_view::{oids_hold, row_of, segment_of, set_insert, wanted_stats, GitGraph};
use crate::view::{collapsed_rows_spec, is_placeholder, row_hidden, seg_collapsed, segments_nonempty, shown_rows, tip_segment};
use crate::config::BranchFilter;
use crate::refs::{has_entry, branch_entries, shown_entries, tag_entries, label_key, label_keys, label_rank, labels_of, sorted_as, sorted_entry};
use crate::graph::{
    fill, fill_at, fill_span, first_parent_state, fork_all, fork_step, find_free, find_holding, holds, initial_segments, lemma_fill, lemma_find_free,
    lemma_find_holding, lemma_fork_step, lemma_process_spec, spans_touch, pad_empty, place, process_spec, spans_fit, BranchLabel, LaneSegment,
    LayoutState, RefLabels, Span3,
};
use crate::helpers::{ascii_lowercase, pinned_first_spec, repo_keys, owning_repo, relevant_change, touched_repos};
use crate::graph::DiffStat;
use crate::oid::Oid;
use crate::helpers::SortOrder;
use crate::render::relative_time_spec;
use crate::text::decimal;
use crate::file_list::{other_than, toggled};
use crate::control::{
    fresh_queries, graph_snapshot_changed, graph_update_spec, lookup, mark_dirty, query_ids, remote_snapshot_changed,
    GraphUpdate,
};
use crate::repo::{rearranged, RepoEntry, RepoId};
use crate::sort::{goes_before, lemma_lex_asym, lemma_lex_irreflexive, lex_lt, stable_order_spec};

verus! {

/// The branch segments partition the rows off the main trunk: each segment
/// lists at least one row, in increasing order, and only rows off the
/// trunk; every row off the trunk is listed, and in one segment only; a row
/// and its first parent share a segment when both are off the trunk; the
/// segments come in the order of their first rows.
pub proof fn law_segments_partition(rows: Seq<GraphRow>, segs: Seq<BranchSegment>)
    requires
        segments_spec(rows, segs),
    ensures
        forall|s: int| 0 <= s < segs.len() ==> (#[trigger] segs[s]).row_indices@.len() >= 1,
        forall|s: int, k1: int, k2: int|
            0 <= s < segs.len() && 0 <= k1 < k2 < segs[s].row_indices@.len() ==> #[trigger] segs[s].row_indices@[k1]
                < #[trigger] segs[s].row_indices@[k2],
        forall|s: int, k: int|
            0 <= s < segs.len() && 0 <= k < segs[s].row_indices@.len() ==> side_row(rows, #[trigger] segs[s].row_indices@[k] as int),
        forall|x: int|
            side_row(rows, x) ==> exists|s: int, k: int|
                0 <= s < segs.len() && 0 <= k < segs[s].row_indices@.len() && #[trigger] segs[s].row_indices@[k] == x,
        forall|s1: int, k1: int, s2: int, k2: int|
            0 <= s1 < segs.len() && 0 <= k1 < segs[s1].row_indices@.len() && 0 <= s2 < segs.len() && 0 <= k2
                < segs[s2].row_indices@.len() && #[trigger] segs[s1].row_indices@[k1] == #[trigger] segs[s2].row_indices@[k2]
                ==> s1 == s2,
        forall|s1: int, k1: int, s2: int, k2: int|
            0 <= s1 < segs.len() && 0 <= k1 < segs[s1].row_indices@.len() && 0 <= s2 < segs.len() && 0 <= k2
                < segs[s2].row_indices@.len() && fp_idx(rows, #[trigger] segs[s1].row_indices@[k1] as int)
                == #[trigger] segs[s2].row_indices@[k2] ==> s1 == s2,
        forall|s1: int, s2: int|
            0 <= s1 < s2 < segs.len() ==> (#[trigger] segs[s1]).row_indices@[0] < (#[trigger] segs[s2]).row_indices@[0],
{
    assert forall|s1: int, k1: int, s2: int, k2: int|
        0 <= s1 < segs.len() && 0 <= k1 < segs[s1].row_indices@.len() && 0 <= s2 < segs.len() && 0 <= k2
            < segs[s2].row_indices@.len() && #[trigger] segs[s1].row_indices@[k1] == #[trigger] segs[s2].row_indices@[k2]
        implies s1 == s2 by {
        let x = segs[s1].row_indices@[k1] as int;
        assert(side_row(rows, x));
        lemma_connected_refl(rows, x);
    }
    assert forall|s1: int, k1: int, s2: int, k2: int|
        0 <= s1 < segs.len() && 0 <= k1 < segs[s1].row_indices@.len() && 0 <= s2 < segs.len() && 0 <= k2
            < segs[s2].row_indices@.len() && fp_idx(rows, #[trigger] segs[s1].row_indices@[k1] as int)
            == #[trigger] segs[s2].row_indices@[k2]
        implies s1 == s2 by {
        let x = segs[s1].row_indices@[k1] as int;
        let y = segs[s2].row_indices@[k2] as int;
        assert(side_row(rows, x) && side_row(rows, y));
        assert(linked(rows, x, y));
        lemma_connected_link(rows, x, y);
    }
}

/// A cut line never takes more screen columns than it is cut to (the two
/// dots it may end in take a column each, as a dot does).
pub proof fn law_truncate_fits(s: Seq<SpanView>, max: int)
    requires
        char_columns('.') == 1,
    ensures
        line_cols(truncate_spec(s, max)) <= if max > 0 { max } else { 0 },
{
    if max <= 0 {
        assert(truncate_spec(s, max).len() == 0);
    } else if width_upto(s, s.len() as int) <= max {
    } else {
        lemma_cut_index(s, max, 0);
        let cut = cut_index(s, max, 0);
        let rem = max - width_upto(s, cut);
        let t = truncate_spec(s, max);
        if rem >= 1 {
            lemma_ellipsize_cols(s[cut].0, rem);
            lemma_width_prefix_eq(t, s, cut);
        } else if cut == 0 {
            assert(t.len() == 0);
        } else {
            lemma_text_cols_nonneg(s[cut - 1].0);
            lemma_ellipsize_cols(s[cut - 1].0, text_cols(s[cut - 1].0));
            lemma_width_prefix_eq(t, s, cut - 1);
        }
    }
}

proof fn lemma_width_prefix_eq(a: Seq<SpanView>, b: Seq<SpanView>, n: int)
    requires
        0 <= n <= a.len(),
        n <= b.len(),
        forall|i: int| 0 <= i < n ==> a[i] == b[i],
    ensures
        width_upto(a, n) == width_upto(b, n),
    decreases n,
{
    if n > 0 {
        lemma_width_prefix_eq(a, b, n - 1);
    }
}

/// Base64 turns every three bytes (or fewer at the end) into four characters.
pub proof fn law_base64_length(d: Seq<u8>)
    ensures
        base64_spec(d).len() == 4 * ((d.len() + 2) / 3),
    decreases d.len(),
{
    if d.len() > 3 {
        law_base64_length(d.skip(3));
        assert(b64_group(d.take(3)).len() == 4);
    } else if d.len() > 0 {
        assert(b64_group(d).len() == 4);
    }
}

/// A browser URL made from a remote names an allowed host, and its owner
/// and repository hold only letters, digits, `.`, `_` and `-`, so no shell
/// metacharacter reaches the program that opens it.
pub proof fn law_remote_url_is_safe(url: Seq<char>, hosts: Seq<String>, r: Seq<char>)
    requires
        github_web_url_spec(url, hosts) == Some(r),
    ensures
        exists|host: Seq<char>, owner: Seq<char>, repo: Seq<char>|
            r == #[trigger] web_url(host, owner, repo) && host_allowed(hosts, host) && is_safe_url_segment_spec(owner)
                && is_safe_url_segment_spec(repo),
{
    let (host, path) = split_git_remote_spec(trim_spec(url))->0;
    let (owner, repo) = owner_and_repo(path)->0;
    assert(r == web_url(host, owner, repo));
    assert(is_safe_url_segment_spec(owner) && is_safe_url_segment_spec(repo));
}

/// A typed character is removed again by Backspace: text and cursor return
/// to what they were.
pub proof fn law_type_then_backspace(v: Seq<char>, c: int, ch: char, ctrl: bool)
    requires
        0 <= c <= v.len(),
        !(ctrl && (ch == 'a' || ch == 'e' || ch == 'u')),
    ensures
        ({
            let typed = edit_spec(v, c, KeyEvent { code: KeyCode::Char(ch), ctrl, alt: false, shift: false });
            let back = edit_spec(typed.0, typed.1, KeyEvent { code: KeyCode::Backspace, ctrl: false, alt: false, shift: false });
            back.0 == v && back.1 == c
        }),
{
    let w = v.take(c) + seq![ch] + v.skip(c);
    assert(w.take(c) =~= v.take(c));
    assert(w.skip(c + 1) =~= v.skip(c));
    assert(v.take(c) + v.skip(c) =~= v);
}

/// Index of the current match after `k` moves to the next match, from `c`.
pub open spec fn after_next_moves(c: int, n: int, k: nat) -> int
    decreases k,
{
    if k == 0 {
        c
    } else {
        (after_next_moves(c, n, (k - 1) as nat) + 1) % n
    }
}

/// Moving to the next search match as many times as there are matches
/// comes back to the current match.
pub proof fn law_next_match_cycles(c: int, n: int)
    requires
        0 <= c < n,
    ensures
        after_next_moves(c, n, n as nat) == c,
{
    lemma_after_moves(c, n, n as nat);
    lemma_mod_self_0(n);
    lemma_add_mod_noop(c, n, n);
    lemma_small_mod(c as nat, n as nat);
}

proof fn lemma_after_moves(c: int, n: int, k: nat)
    requires
        0 <= c < n,
    ensures
        after_next_moves(c, n, k) == (c + k) % n,
    decreases k,
{
    if k == 0 {
        lemma_small_mod(c as nat, n as nat);
    } else {
        lemma_after_moves(c, n, (k - 1) as nat);
        let prev = after_next_moves(c, n, (k - 1) as nat);
        if n == 1 {
            assert((prev + 1) % 1 == 0) by (nonlinear_arith);
            assert((c + k) % 1 == 0) by (nonlinear_arith);
        } else {
            lemma_add_mod_noop(c + k - 1, 1, n);
            lemma_small_mod(1, n as nat);
        }
    }
}

/// Pinned paths after pinning `p`: unchanged when already pinned.
pub open spec fn pin(v: Seq<Seq<char>>, p: Seq<char>) -> Seq<Seq<char>> {
    if v.contains(p) { v } else { v.push(p) }
}

/// Pinning a repository twice is the same as pinning it once.
pub proof fn law_pin_idempotent(v: Seq<Seq<char>>, p: Seq<char>)
    ensures
        pin(pin(v, p), p) == pin(v, p),
{
    if !v.contains(p) {
        assert(v.push(p)[v.len() as int] == p);
        assert(v.push(p).contains(p));
    }
}

/// Folding a segment and then unfolding its placeholder gives back the
/// folded set there was before.
pub proof fn law_fold_then_unfold(cb: Seq<Seq<char>>, id: Seq<char>)
    requires
        !cb.contains(id),
    ensures
        set_insert(cb, id).filter(|x: Seq<char>| x != id) == cb,
{
    let f = |x: Seq<char>| x != id;
    lemma_filter_all(cb, id);
    cb.lemma_filter_push(id, f);
}

proof fn lemma_filter_all(cb: Seq<Seq<char>>, id: Seq<char>)
    requires
        !cb.contains(id),
    ensures
        cb.filter(|x: Seq<char>| x != id) == cb,
    decreases cb.len(),
{
    let f = |x: Seq<char>| x != id;
    if cb.len() == 0 {
        assert(cb.filter(f) =~= cb);
    } else {
        let init = cb.drop_last();
        assert(!init.contains(id)) by {
            if init.contains(id) {
                let k = choose|k: int| 0 <= k < init.len() && init[k] == id;
                assert(cb[k] == id);
            }
        }
        lemma_filter_all(init, id);
        assert(cb =~= init.push(cb.last()));
        assert(cb.last() != id) by {
            assert(cb[cb.len() - 1] == cb.last());
        }
        init.lemma_filter_push(cb.last(), f);
    }
}

/// Switching the sort order twice comes back to the first order.
pub proof fn law_sort_order_toggle(o: SortOrder)
    ensures
        (match (match o {
            SortOrder::Alphabetical => SortOrder::DirtyFirst,
            SortOrder::DirtyFirst => SortOrder::Alphabetical,
        }) {
            SortOrder::Alphabetical => SortOrder::DirtyFirst,
            SortOrder::DirtyFirst => SortOrder::Alphabetical,
        }) == o,
{
}

/// Moving through a menu lands on an entry, never on a heading (or stays).
pub proof fn law_menu_moves_land_on_entries(sel: Seq<bool>, start: int, len: int)
    requires
        0 <= start,
        len <= sel.len(),
    ensures
        next_selectable(sel, start, len, start + 1) == start || sel[next_selectable(sel, start, len, start + 1)],
        prev_selectable(sel, start, start - 1) == start || sel[prev_selectable(sel, start, start - 1)],
{
    lemma_next_sel(sel, start, len, start + 1);
    lemma_prev_sel(sel, start, start - 1);
}

proof fn lemma_next_sel(sel: Seq<bool>, start: int, len: int, k: int)
    requires
        len <= sel.len(),
    ensures
        next_selectable(sel, start, len, k) == start || (0 <= next_selectable(sel, start, len, k) < sel.len()
            && sel[next_selectable(sel, start, len, k)]),
    decreases len - k,
{
    if k < len && !(0 <= k < sel.len() && sel[k]) {
        lemma_next_sel(sel, start, len, k + 1);
    }
}

proof fn lemma_prev_sel(sel: Seq<bool>, start: int, k: int)
    ensures
        prev_selectable(sel, start, k) == start || (0 <= prev_selectable(sel, start, k) < sel.len()
            && sel[prev_selectable(sel, start, k)]),
    decreases k + 1,
{
    if k >= 0 && !(k < sel.len() && sel[k]) {
        lemma_prev_sel(sel, start, k - 1);
    }
}

/// With nothing folded, the graph shows every row.
pub proof fn law_unfolded_graph_shows_all_rows(g: GitGraph)
    requires
        g.collapsed_branches@.len() == 0,
    ensures
        g.shown() == g.all_rows@,
{
}

/// A commit time in the future reads as zero seconds ago.
pub proof fn law_future_time_reads_zero(now: int, t: int)
    requires
        t >= now,
    ensures
        relative_time_spec(now, t) == decimal(0) + "s ago"@,
{
}

/// Filtering by a test that every element passes keeps the sequence.
proof fn lemma_filter_keeps_all(s: Seq<Seq<char>>, pred: spec_fn(Seq<char>) -> bool)
    requires
        forall|i: int| 0 <= i < s.len() ==> pred(#[trigger] s[i]),
    ensures
        s.filter(pred) == s,
    decreases s.len(),
{
    if s.len() > 0 {
        let a = s.drop_last();
        lemma_filter_keeps_all(a, pred);
        assert(s =~= a.push(s.last()));
        a.lemma_filter_push(s.last(), pred);
    } else {
        assert(s.filter(pred) =~= s);
    }
}

/// Marking a file and marking it again leaves the same paths marked; a
/// path that was not marked leaves the marks exactly as they were.
pub proof fn law_toggle_mark_twice(marks: Seq<Seq<char>>, p: Seq<char>)
    requires
        marks.no_duplicates(),
    ensures
        toggled(toggled(marks, p), p).to_set() == marks.to_set(),
        !marks.contains(p) ==> toggled(toggled(marks, p), p) == marks,
{
    let pred = other_than(p);
    if marks.contains(p) {
        let t1 = marks.filter(pred);
        assert(!t1.contains(p)) by {
            if t1.contains(p) {
                let k = choose|k: int| 0 <= k < t1.len() && t1[k] == p;
                marks.lemma_filter_pred(pred, k);
            }
        }
        assert(toggled(t1, p) == t1.push(p));
        assert forall|x: Seq<char>| #[trigger] t1.push(p).to_set().contains(x) == marks.to_set().contains(x) by {
            if x == p {
                assert(t1.push(p)[t1.len() as int] == p);
            } else {
                if marks.contains(x) {
                    let k = choose|k: int| 0 <= k < marks.len() && marks[k] == x;
                    marks.lemma_filter_contains(pred, k);
                    let j = choose|j: int| 0 <= j < t1.len() && t1[j] == x;
                    assert(t1.push(p)[j] == x);
                }
                if t1.push(p).contains(x) {
                    let j = choose|j: int| 0 <= j < t1.push(p).len() && t1.push(p)[j] == x;
                    assert(t1[j] == x);
                    marks.lemma_filter_contains_rev(pred, x);
                }
            }
        }
        assert(t1.push(p).to_set() =~= marks.to_set());
    } else {
        let t1 = marks.push(p);
        assert(t1[marks.len() as int] == p);
        marks.lemma_filter_push(p, pred);
        assert forall|i: int| 0 <= i < marks.len() implies pred(#[trigger] marks[i]) by {}
        lemma_filter_keeps_all(marks, pred);
    }
}

/// The repositories with a query in flight, after starting the first `k`
/// of `q`: each of them once, when they were each once before.
proof fn lemma_fresh_queries_distinct(pending: Seq<Seq<char>>, q: Seq<(RepoId, String)>, k: int)
    requires
        pending.no_duplicates(),
        0 <= k <= q.len(),
    ensures
        (pending + query_ids(fresh_queries(pending, q, k))).no_duplicates(),
    decreases k,
{
    if k > 0 {
        lemma_fresh_queries_distinct(pending, q, k - 1);
        let prev = fresh_queries(pending, q, k - 1);
        let x = q[k - 1];
        if !(pending.contains(x.0.0@) || query_ids(prev).contains(x.0.0@)) {
            let before = pending + query_ids(prev);
            assert(query_ids(prev.push(x)) =~= query_ids(prev).push(x.0.0@));
            assert(pending + query_ids(prev.push(x)) =~= before.push(x.0.0@));
            assert(!before.contains(x.0.0@)) by {
                if before.contains(x.0.0@) {
                    let j = choose|j: int| 0 <= j < before.len() && before[j] == x.0.0@;
                    if j < pending.len() {
                        assert(pending[j] == x.0.0@);
                    } else {
                        assert(query_ids(prev)[j - pending.len()] == x.0.0@);
                    }
                }
            }
            assert forall|a: int, b: int| 0 <= a < b < before.len() + 1 implies before.push(x.0.0@)[a] != before.push(
                x.0.0@,
            )[b] by {
                if b == before.len() {
                    assert(before[a] != x.0.0@);
                }
            }
        }
    }
}

/// A repository never has two status queries in flight: starting queries
/// keeps the in-flight set free of repeats, whatever is asked for.
pub proof fn law_one_query_per_repo(pending: Seq<Seq<char>>, q: Seq<(RepoId, String)>)
    requires
        pending.no_duplicates(),
    ensures
        (pending + query_ids(fresh_queries(pending, q, q.len() as int))).no_duplicates(),
{
    lemma_fresh_queries_distinct(pending, q, q.len() as int);
}

/// A refresh asked for while a query of the repository is in flight is not
/// lost: the repository is marked as changed, so the answer of that query
/// asks for another one.
pub proof fn law_refresh_during_query_requeries(dirty: Seq<Seq<char>>, id: Seq<char>)
    ensures
        mark_dirty(dirty, id).contains(id),
{
    if !dirty.contains(id) {
        assert(dirty.push(id)[dirty.len() as int] == id);
    }
}

/// A status whose snapshots equal the recorded ones changes nothing in a
/// loaded graph: no reload and no refresh of the pushed markers.
pub proof fn law_repeated_snapshot_leaves_graph(
    graph_keys: Seq<(String, String)>,
    remote_keys: Seq<(String, String)>,
    path: Seq<char>,
    graph_key: Seq<char>,
    remote_key: Seq<char>,
    selected_repo: bool,
    has_detail: bool,
    generation: u64,
)
    requires
        lookup(graph_keys, path) == Some(graph_key),
        lookup(remote_keys, path) == Some(remote_key),
        generation > 0,
    ensures
        !graph_snapshot_changed(graph_keys, path, graph_key),
        !remote_snapshot_changed(remote_keys, path, remote_key),
        graph_update_spec(
            selected_repo,
            graph_snapshot_changed(graph_keys, path, graph_key),
            remote_snapshot_changed(remote_keys, path, remote_key),
            has_detail,
            generation,
        ) == GraphUpdate::Nothing,
{
}

/// Statistics are never asked for twice at once: a request names each
/// commit once, and none whose statistics are already on the way.
pub proof fn law_stats_requested_once(
    rows: Seq<GraphRow>,
    cache: Seq<(Oid, DiffStat)>,
    pending: Seq<Oid>,
    start: int,
    k: int,
)
    ensures
        forall|j: int|
            0 <= j < wanted_stats(rows, cache, pending, start, k).len() ==> !oids_hold(
                pending,
                (#[trigger] wanted_stats(rows, cache, pending, start, k)[j])@,
            ),
        forall|a: int, b: int|
            0 <= a < b < wanted_stats(rows, cache, pending, start, k).len() ==> (#[trigger] wanted_stats(
                rows,
                cache,
                pending,
                start,
                k,
            )[a])@ != (#[trigger] wanted_stats(rows, cache, pending, start, k)[b])@,
    decreases k - start,
{
    if k > start {
        law_stats_requested_once(rows, cache, pending, start, k - 1);
        let prev = wanted_stats(rows, cache, pending, start, k - 1);
        let w = wanted_stats(rows, cache, pending, start, k);
        let row = rows[k - 1];
        if w != prev {
            assert(w == prev.push(row.oid));
            assert(!oids_hold(prev, row.oid@));
            assert forall|a: int, b: int| 0 <= a < b < w.len() implies #[trigger] w[a]@ != #[trigger] w[b]@ by {
                if b == prev.len() {
                    assert(w[a] == prev[a]);
                    if w[a]@ == row.oid@ {
                        assert(oids_hold(prev, row.oid@));
                    }
                } else {
                    assert(w[a] == prev[a] && w[b] == prev[b]);
                }
            }
            assert forall|j: int| 0 <= j < w.len() implies !oids_hold(pending, (#[trigger] w[j])@) by {
                if j < prev.len() {
                    assert(w[j] == prev[j]);
                }
            }
        }
    }
}

/// A strictly increasing choice of `n` positions below `n` is every
/// position in turn.
proof fn lemma_increasing_is_identity(p: Seq<usize>, i: int)
    requires
        forall|k: int| 0 <= k < p.len() ==> (#[trigger] p[k]) < p.len(),
        forall|a: int, b: int| 0 <= a < b < p.len() ==> #[trigger] p[a] < #[trigger] p[b],
        0 <= i < p.len(),
    ensures
        p[i] == i,
{
    assert forall|k: int| 0 <= k < p.len() implies #[trigger] p[k] >= k by {
        lemma_at_least_index(p, k);
    }
    assert forall|k: int| 0 <= k < p.len() implies #[trigger] p[k] <= k by {
        lemma_at_most_index(p, k);
    }
}

proof fn lemma_at_least_index(p: Seq<usize>, k: int)
    requires
        forall|a: int, b: int| 0 <= a < b < p.len() ==> #[trigger] p[a] < #[trigger] p[b],
        0 <= k < p.len(),
    ensures
        p[k] >= k,
    decreases k,
{
    if k > 0 {
        lemma_at_least_index(p, k - 1);
        assert(p[k - 1] < p[k]);
    }
}

proof fn lemma_at_most_index(p: Seq<usize>, k: int)
    requires
        forall|x: int| 0 <= x < p.len() ==> (#[trigger] p[x]) < p.len(),
        forall|a: int, b: int| 0 <= a < b < p.len() ==> #[trigger] p[a] < #[trigger] p[b],
        0 <= k < p.len(),
    ensures
        p[k] <= k,
    decreases p.len() - k,
{
    if k < p.len() - 1 {
        lemma_at_most_index(p, k + 1);
        assert(p[k] < p[k + 1]);
    } else {
        assert(p[k] < p.len());
    }
}

/// Sorting a list whose keys are already in order leaves it as it is (the
/// sort is stable): true of the list sorted by name and of the list sorted
/// with changed repositories first.
pub proof fn law_sorting_a_sorted_list_keeps_it(keys: Seq<Seq<char>>, repos: Seq<RepoEntry>, p: Seq<usize>)
    requires
        keys.len() == repos.len(),
        forall|i: int, j: int| 0 <= i < j < keys.len() ==> !lex_lt(#[trigger] keys[j], #[trigger] keys[i]),
        stable_order_spec(keys, p),
    ensures
        rearranged(repos, p) == repos,
{
    assert forall|a: int, b: int| 0 <= a < b < p.len() implies #[trigger] p[a] < #[trigger] p[b] by {
        assert(goes_before(keys, p[a] as int, p[b] as int));
        assert(p[a] != p[b]);
        if p[a] > p[b] {
            assert(!lex_lt(keys[p[a] as int], keys[p[b] as int]));
        }
    }
    assert forall|i: int| 0 <= i < p.len() implies #[trigger] p[i] == i by {
        lemma_increasing_is_identity(p, i);
    }
    assert(rearranged(repos, p) =~= repos);
}

/// After a sort, no key comes after a smaller one: the list is in key order,
/// so sorting it again keeps it ([`law_sorting_a_sorted_list_keeps_it`]).
pub proof fn law_sorted_keys_are_in_order(keys: Seq<Seq<char>>, p: Seq<usize>)
    requires
        stable_order_spec(keys, p),
    ensures
        forall|i: int, j: int|
            0 <= i < j < p.len() ==> !lex_lt(#[trigger] keys[p[j] as int], #[trigger] keys[p[i] as int]),
{
    assert forall|i: int, j: int| 0 <= i < j < p.len() implies !lex_lt(
        #[trigger] keys[p[j] as int],
        #[trigger] keys[p[i] as int],
    ) by {
        assert(goes_before(keys, p[i] as int, p[j] as int));
        lemma_lex_asym(keys[p[i] as int], keys[p[j] as int]);
        lemma_lex_irreflexive(keys[p[i] as int]);
    }
}

/// Shift-Tab undoes Tab: focus comes back to the panel it left (in the
/// single-repository workspace, from either of its two panels).
pub proof fn law_backtab_undoes_tab(f: FocusPanel, focused_repo: bool)
    requires
        focused_repo ==> f != FocusPanel::Repos,
    ensures
        prev_focus(next_focus(f, focused_repo), focused_repo) == f,
        next_focus(prev_focus(f, focused_repo), focused_repo) == f,
{
}

/// Tab in the help overlay pages forward and Shift-Tab back: one undoes
/// the other.
pub proof fn law_help_pages_go_back_and_forth(ctx: KeyContext, shift: bool, alt: bool)
    requires
        ctx.show_help,
        ctx.help_page < HELP_PAGE_COUNT,
        !ctx.notice_visible && !ctx.confirm_visible && !ctx.path_input_visible && !ctx.commit_input_visible
            && !ctx.github_input_visible && !ctx.menu_visible,
        !(ctx.focus == FocusPanel::Graph && ctx.search_visible),
    ensures
        ({
            let tab = KeyEvent { code: KeyCode::Tab, ctrl: false, alt, shift };
            let back = KeyEvent { code: KeyCode::BackTab, ctrl: false, alt, shift };
            &&& key_route(ctx, tab) matches KeyRoute::HelpPage(p) && p < HELP_PAGE_COUNT && key_route(
                KeyContext { help_page: p, ..ctx },
                back,
            ) == KeyRoute::HelpPage(ctx.help_page)
            &&& key_route(ctx, back) matches KeyRoute::HelpPage(q) && q < HELP_PAGE_COUNT && key_route(
                KeyContext { help_page: q, ..ctx },
                tab,
            ) == KeyRoute::HelpPage(ctx.help_page)
        }),
{
}

/// Moving to the previous search match undoes moving to the next one, and
/// the other way round.
pub proof fn law_prev_match_undoes_next(c: usize, n: int)
    requires
        0 <= c < n <= usize::MAX,
    ensures
        prev_match_index(Some(next_match_index(Some(c), n) as usize), n) == c,
        next_match_index(Some(prev_match_index(Some(c), n) as usize), n) == c,
{
    if c + 1 < n {
        lemma_small_mod((c + 1) as nat, n as nat);
    } else {
        lemma_mod_self_0(n);
    }
    if c == 0 {
        lemma_mod_self_0(n);
    } else {
        lemma_small_mod(c as nat, n as nat);
    }
}

/// Whether segment `s` is folded and row `i` is its tip.
pub open spec fn folded_tip(segs: Seq<BranchSegment>, collapsed: Seq<String>, i: int) -> bool {
    exists|s: int|
        0 <= s < segs.len() && seg_collapsed(segs, collapsed, s) && segs[s].row_indices@.len() > 0
            && #[trigger] segs[s].row_indices@[0] == i
}

/// Number of rows below `n` that folding drops: rows of a folded segment
/// other than a folded segment's tip.
pub open spec fn dropped_rows(segs: Seq<BranchSegment>, collapsed: Seq<String>, n: int) -> int
    decreases n,
{
    if n <= 0 {
        0
    } else {
        dropped_rows(segs, collapsed, n - 1) + if row_hidden(segs, collapsed, n - 1) && !folded_tip(
            segs,
            collapsed,
            n - 1,
        ) {
            1int
        } else {
            0int
        }
    }
}

proof fn lemma_tip_segment(segs: Seq<BranchSegment>, collapsed: Seq<String>, i: int, s: int)
    requires
        0 <= s <= segs.len(),
    ensures
        s <= tip_segment(segs, collapsed, i, s) <= segs.len(),
        tip_segment(segs, collapsed, i, s) < segs.len() ==> seg_collapsed(segs, collapsed, tip_segment(segs, collapsed, i, s))
            && segs[tip_segment(segs, collapsed, i, s)].row_indices@[0] == i,
        tip_segment(segs, collapsed, i, s) == segs.len() ==> forall|t: int|
            s <= t < segs.len() && seg_collapsed(segs, collapsed, t) ==> #[trigger] segs[t].row_indices@[0] != i,
    decreases segs.len() - s,
{
    if s < segs.len() && !(seg_collapsed(segs, collapsed, s) && segs[s].row_indices@[0] == i) {
        lemma_tip_segment(segs, collapsed, i, s + 1);
    }
}

proof fn lemma_shown_rows(segs: Seq<BranchSegment>, collapsed: Seq<String>, n: int)
    requires
        n >= 0,
        segments_nonempty(segs),
    ensures
        ({
            let sr = shown_rows(segs, collapsed, n);
            &&& sr.len() + dropped_rows(segs, collapsed, n) == n
            &&& forall|j1: int, j2: int| 0 <= j1 < j2 < sr.len() ==> (#[trigger] sr[j1]).0 < (#[trigger] sr[j2]).0
            &&& forall|j: int| 0 <= j < sr.len() ==> 0 <= (#[trigger] sr[j]).0 < n
            &&& forall|i: int|
                0 <= i < n ==> ((exists|j: int| 0 <= j < sr.len() && (#[trigger] sr[j]).0 == i) <==> (!row_hidden(
                    segs,
                    collapsed,
                    i,
                ) || folded_tip(segs, collapsed, i)))
            &&& forall|j: int|
                0 <= j < sr.len() ==> ((#[trigger] sr[j]).1 < 0 ==> !row_hidden(segs, collapsed, sr[j].0))
                    && (sr[j].1 >= 0 ==> sr[j].1 < segs.len() && seg_collapsed(segs, collapsed, sr[j].1)
                    && segs[sr[j].1].row_indices@[0] == sr[j].0)
        }),
    decreases n,
{
    if n > 0 {
        let i = n - 1;
        lemma_shown_rows(segs, collapsed, i);
        lemma_tip_segment(segs, collapsed, i, 0);
        let prev = shown_rows(segs, collapsed, i);
        let sr = shown_rows(segs, collapsed, n);
        let t = tip_segment(segs, collapsed, i, 0);
        if t < segs.len() {
            assert(segs[t].row_indices@.len() > 0);
            assert(segs[t].row_indices@[0] == i);
        }
        assert(folded_tip(segs, collapsed, i) <==> t < segs.len()) by {
            if folded_tip(segs, collapsed, i) {
                let s = choose|s: int|
                    0 <= s < segs.len() && seg_collapsed(segs, collapsed, s) && segs[s].row_indices@.len() > 0
                        && #[trigger] segs[s].row_indices@[0] == i;
                assert(segs[s].row_indices@[0] == i);
            }
        }
        assert(folded_tip(segs, collapsed, i) ==> row_hidden(segs, collapsed, i)) by {
            if t < segs.len() {
                assert(segs[t].row_indices@[0] == i);
            }
        }
        assert forall|j: int| 0 <= j < prev.len() implies sr[j] == prev[j] by {}
        assert forall|k: int|
            0 <= k < n implies ((exists|j: int| 0 <= j < sr.len() && (#[trigger] sr[j]).0 == k) <==> (!row_hidden(
                segs,
                collapsed,
                k,
            ) || folded_tip(segs, collapsed, k))) by {
            if k < i {
                if exists|j: int| 0 <= j < prev.len() && (#[trigger] prev[j]).0 == k {
                    let j = choose|j: int| 0 <= j < prev.len() && (#[trigger] prev[j]).0 == k;
                    assert(sr[j] == prev[j]);
                }
                if exists|j: int| 0 <= j < sr.len() && (#[trigger] sr[j]).0 == k {
                    let j = choose|j: int| 0 <= j < sr.len() && (#[trigger] sr[j]).0 == k;
                    if j == prev.len() {
                        assert(sr[j].0 == i);
                    } else {
                        assert(prev[j] == sr[j]);
                    }
                }
            } else {
                if sr.len() > prev.len() {
                    assert(sr[prev.len() as int].0 == i);
                }
                if exists|j: int| 0 <= j < sr.len() && (#[trigger] sr[j]).0 == k {
                    let j = choose|j: int| 0 <= j < sr.len() && (#[trigger] sr[j]).0 == k;
                    if j < prev.len() {
                        assert(prev[j] == sr[j]);
                    }
                }
            }
        }
    }
}

/// Folding drops the rows of each folded segment and puts a placeholder in
/// place of its tip: the rows shown are the loaded rows in their order,
/// less the dropped ones; a row stays exactly when it lies in no folded
/// segment or is a folded segment's tip; a kept row is shown as it is, a
/// tip as the placeholder of its segment; as many rows are shown as are
/// loaded, less those dropped.
pub proof fn law_folding_drops_and_summarises(
    rows: Seq<GraphRow>,
    segs: Seq<BranchSegment>,
    collapsed: Seq<String>,
    out: Seq<GraphRow>,
)
    requires
        segments_nonempty(segs),
        collapsed_rows_spec(rows, segs, collapsed, out),
    ensures
        ({
            let sr = shown_rows(segs, collapsed, rows.len() as int);
            &&& out.len() == rows.len() - dropped_rows(segs, collapsed, rows.len() as int)
            &&& forall|j1: int, j2: int| 0 <= j1 < j2 < sr.len() ==> (#[trigger] sr[j1]).0 < (#[trigger] sr[j2]).0
            &&& forall|i: int|
                0 <= i < rows.len() ==> ((exists|j: int| 0 <= j < sr.len() && (#[trigger] sr[j]).0 == i) <==> (!row_hidden(
                    segs,
                    collapsed,
                    i,
                ) || folded_tip(segs, collapsed, i)))
            &&& forall|j: int|
                0 <= j < sr.len() ==> ((#[trigger] sr[j]).1 < 0 ==> out[j]@ == rows[sr[j].0]@)
                    && (sr[j].1 >= 0 ==> seg_collapsed(segs, collapsed, sr[j].1) && segs[sr[j].1].row_indices@[0]
                    == sr[j].0 && is_placeholder(out[j]@, rows[sr[j].0]@, segs[sr[j].1]))
        }),
{
    lemma_shown_rows(segs, collapsed, rows.len() as int);
}

/// Folding asks nothing of a row on the main trunk: with such a row
/// selected, toggling leaves the folded segments as they were.
pub proof fn law_trunk_rows_do_not_fold(g: GitGraph, after: GitGraph, idx: usize)
    requires
        g.wf(),
        g.all_rows@.len() <= usize::MAX,
        g.collapse_toggled(after),
        g.selected == Some(idx),
        idx < g.shown().len(),
        g.shown()[idx as int].collapsed is None,
        in_trunk(g.all_rows@, row_of(g.all_rows@, g.shown()[idx as int].oid@, 0)),
    ensures
        after.collapsed_branches == g.collapsed_branches,
        after.all_rows == g.all_rows,
        after.segments == g.segments,
{
    let a = row_of(g.all_rows@, g.shown()[idx as int].oid@, 0);
    lemma_segment_of(g.segments@, a, 0);
    let s = segment_of(g.segments@, a, 0);
    if s < g.segments@.len() {
        let k = choose|k: int| 0 <= k < g.segments@[s].row_indices@.len() && g.segments@[s].row_indices@[k] == a as usize;
        assert(side_row(g.all_rows@, g.segments@[s].row_indices@[k] as int));
    }
}

proof fn lemma_segment_of(segs: Seq<BranchSegment>, i: int, s: int)
    requires
        0 <= s <= segs.len(),
    ensures
        s <= segment_of(segs, i, s) <= segs.len(),
        segment_of(segs, i, s) < segs.len() ==> segs[segment_of(segs, i, s)].row_indices@.contains(i as usize),
    decreases segs.len() - s,
{
    if s < segs.len() && !segs[s].row_indices@.contains(i as usize) {
        lemma_segment_of(segs, i, s + 1);
    }
}

proof fn lemma_touched_repos(changed: Seq<String>, repos: Seq<String>, exclude: Seq<String>, n: int)
    requires
        0 <= n <= changed.len(),
    ensures
        touched_repos(changed, repos, exclude, n).no_duplicates(),
        forall|x: Seq<char>|
            touched_repos(changed, repos, exclude, n).contains(x) <==> exists|k: int|
                0 <= k < n && relevant_change(changed[k]@, exclude) && 0 <= #[trigger] owning_repo(changed[k]@, repos, 0)
                    < repos.len() && repos[owning_repo(changed[k]@, repos, 0)]@ == x,
    decreases n,
{
    if n > 0 {
        lemma_touched_repos(changed, repos, exclude, n - 1);
        let prev = touched_repos(changed, repos, exclude, n - 1);
        let cur = touched_repos(changed, repos, exclude, n);
        let o = owning_repo(changed[n - 1]@, repos, 0);
        assert forall|x: Seq<char>|
            cur.contains(x) <==> exists|k: int|
                0 <= k < n && relevant_change(changed[k]@, exclude) && 0 <= #[trigger] owning_repo(changed[k]@, repos, 0)
                    < repos.len() && repos[owning_repo(changed[k]@, repos, 0)]@ == x by {
            if cur.contains(x) && !prev.contains(x) {
                assert(cur.last() == x);
                assert(owning_repo(changed[n - 1]@, repos, 0) == o);
            }
            if prev.contains(x) {
                let j = choose|j: int| 0 <= j < prev.len() && prev[j] == x;
                assert(cur[j] == x);
            }
            if exists|k: int|
                0 <= k < n && relevant_change(changed[k]@, exclude) && 0 <= #[trigger] owning_repo(changed[k]@, repos, 0)
                    < repos.len() && repos[owning_repo(changed[k]@, repos, 0)]@ == x {
                let k = choose|k: int|
                    0 <= k < n && relevant_change(changed[k]@, exclude) && 0 <= #[trigger] owning_repo(changed[k]@, repos, 0)
                        < repos.len() && repos[owning_repo(changed[k]@, repos, 0)]@ == x;
                if k == n - 1 && !prev.contains(x) {
                    assert(cur.last() == x);
                }
            }
        }
    }
}

/// A change is routed to the repository that holds it: the repositories
/// to refresh are, each once, those that are the first of `repos` to hold
/// some relevant changed path.
pub proof fn law_changes_route_to_owning_repos(changed: Seq<String>, repos: Seq<String>, exclude: Seq<String>)
    ensures
        touched_repos(changed, repos, exclude, changed.len() as int).no_duplicates(),
        forall|x: Seq<char>|
            touched_repos(changed, repos, exclude, changed.len() as int).contains(x) <==> exists|k: int|
                0 <= k < changed.len() && relevant_change(changed[k]@, exclude) && 0 <= #[trigger] owning_repo(
                    changed[k]@,
                    repos,
                    0,
                ) < repos.len() && repos[owning_repo(changed[k]@, repos, 0)]@ == x,
{
    lemma_touched_repos(changed, repos, exclude, changed.len() as int);
}

proof fn lemma_key_order(a: BranchLabel, b: BranchLabel)
    requires
        lex_lt(label_key(a), label_key(b)) || label_key(a) == label_key(b),
    ensures
        label_rank(a) < label_rank(b) || (label_rank(a) == label_rank(b) && (a.name@ == b.name@ || lex_lt(
            a.name@,
            b.name@,
        ))),
{
    let ka = label_key(a);
    let kb = label_key(b);
    let ca = ('0' as int + label_rank(a)) as char;
    let cb = ('0' as int + label_rank(b)) as char;
    assert(ka[0] == ca && kb[0] == cb);
    assert(ka.skip(1) =~= a.name@);
    assert(kb.skip(1) =~= b.name@);
    assert(ca as int == '0' as int + label_rank(a));
    assert(cb as int == '0' as int + label_rank(b));
}

/// The labels of a commit come in display order: HEAD first, then
/// branches before tags and local before remote, and labels of one kind by
/// name.
pub proof fn law_labels_in_display_order(entry: RefLabels, es: Seq<(Oid, BranchLabel)>)
    requires
        sorted_entry(entry, es),
    ensures
        forall|i: int, j: int|
            0 <= i < j < entry.labels@.len() ==> label_rank(#[trigger] entry.labels@[i]) < label_rank(
                #[trigger] entry.labels@[j],
            ) || (label_rank(entry.labels@[i]) == label_rank(entry.labels@[j]) && (entry.labels@[i].name@
                == entry.labels@[j].name@ || lex_lt(entry.labels@[i].name@, entry.labels@[j].name@))),
{
    let ls = labels_of(es, entry.oid@);
    let p = choose|p: Seq<usize>| #[trigger] sorted_as(entry.labels@, ls, p);
    assert forall|i: int, j: int| 0 <= i < j < entry.labels@.len() implies label_rank(#[trigger] entry.labels@[i])
        < label_rank(#[trigger] entry.labels@[j]) || (label_rank(entry.labels@[i]) == label_rank(entry.labels@[j])
        && (entry.labels@[i].name@ == entry.labels@[j].name@ || lex_lt(entry.labels@[i].name@, entry.labels@[j].name@))) by {
        let keys = label_keys(ls);
        assert(goes_before(keys, p[i] as int, p[j] as int));
        assert(keys[p[i] as int] == label_key(ls[p[i] as int]));
        assert(keys[p[j] as int] == label_key(ls[p[j] as int]));
        lemma_key_order(entry.labels@[i], entry.labels@[j]);
    }
}

/// A remote branch is never HEAD nor checked out in a worktree; a tag is
/// none of HEAD, remote or worktree.
pub open spec fn label_kinds_ok(l: BranchLabel) -> bool {
    &&& l.is_remote ==> !l.is_head && !l.is_worktree
    &&& l.is_tag ==> !l.is_head && !l.is_remote && !l.is_worktree
}

proof fn lemma_labels_of_kinds(es: Seq<(Oid, BranchLabel)>, id: Seq<char>)
    requires
        forall|k: int| 0 <= k < es.len() ==> label_kinds_ok(#[trigger] es[k].1),
    ensures
        forall|i: int| 0 <= i < labels_of(es, id).len() ==> label_kinds_ok(#[trigger] labels_of(es, id)[i]),
    decreases es.len(),
{
    if es.len() > 0 {
        let rest = es.drop_last();
        assert forall|k: int| 0 <= k < rest.len() implies label_kinds_ok(#[trigger] rest[k].1) by {
            assert(rest[k] == es[k]);
        }
        lemma_labels_of_kinds(rest, id);
        assert(label_kinds_ok(es[es.len() - 1].1));
        let prev = labels_of(rest, id);
        let cur = labels_of(es, id);
        assert forall|i: int| 0 <= i < cur.len() implies label_kinds_ok(#[trigger] cur[i]) by {
            if i < prev.len() {
                assert(cur[i] == prev[i]);
            }
        }
    }
}

/// Labels keep their kinds apart: a remote branch is never HEAD nor
/// checked out in a worktree, and a tag is none of HEAD, remote or
/// worktree.
pub proof fn law_label_kinds(
    local: Seq<(String, Oid)>,
    remote: Seq<(String, Oid)>,
    tags: Seq<(String, Oid)>,
    head_oid: Option<Oid>,
    head_name: Option<String>,
    worktree_branches: Seq<String>,
    filter: BranchFilter,
    entry: RefLabels,
)
    requires
        sorted_entry(entry, shown_entries(local, remote, tags, head_oid, head_name, worktree_branches, filter)),
    ensures
        forall|i: int| 0 <= i < entry.labels@.len() ==> label_kinds_ok(#[trigger] entry.labels@[i]),
{
    let es = shown_entries(local, remote, tags, head_oid, head_name, worktree_branches, filter);
    let l = branch_entries(local, false, head_oid, head_name, worktree_branches);
    let r = branch_entries(remote, true, head_oid, head_name, worktree_branches);
    let t = tag_entries(tags);
    assert forall|k: int| 0 <= k < l.len() implies label_kinds_ok(#[trigger] l[k].1) by {}
    assert forall|k: int| 0 <= k < r.len() implies label_kinds_ok(#[trigger] r[k].1) by {}
    assert forall|k: int| 0 <= k < t.len() implies label_kinds_ok(#[trigger] t[k].1) by {}
    assert forall|k: int| 0 <= k < es.len() implies label_kinds_ok(#[trigger] es[k].1) by {
        match filter {
            BranchFilter::All => {
                if k < l.len() {
                    assert(es[k] == l[k]);
                } else if k < l.len() + r.len() {
                    assert(es[k] == r[k - l.len()]);
                } else {
                    assert(es[k] == t[k - l.len() - r.len()]);
                }
            },
            BranchFilter::Local => {
                if k < l.len() {
                    assert(es[k] == l[k]);
                } else {
                    assert(es[k] == t[k - l.len()]);
                }
            },
            BranchFilter::Remote => {
                if k < r.len() {
                    assert(es[k] == r[k]);
                } else {
                    assert(es[k] == t[k - r.len()]);
                }
            },
            BranchFilter::Off => {},
        }
    }
    let ls = labels_of(es, entry.oid@);
    lemma_labels_of_kinds(es, entry.oid@);
    let p = choose|p: Seq<usize>| #[trigger] sorted_as(entry.labels@, ls, p);
    assert forall|i: int| 0 <= i < entry.labels@.len() implies label_kinds_ok(#[trigger] entry.labels@[i]) by {
        assert(entry.labels@[i] == ls[p[i] as int]);
    }
}

proof fn lemma_line_text_append(a: Seq<SpanView>, b: Seq<SpanView>)
    ensures
        line_text(a + b) == line_text(a) + line_text(b),
    decreases b.len(),
{
    if b.len() == 0 {
        assert(a + b =~= a);
        assert(line_text(a) + line_text(b) =~= line_text(a));
    } else {
        assert((a + b).drop_last() =~= a + b.drop_last());
        lemma_line_text_append(a, b.drop_last());
        assert(line_text(a + b) =~= line_text(a) + line_text(b));
    }
}

proof fn lemma_line_text_front(s: Seq<SpanView>, i: int)
    requires
        0 <= i < s.len(),
    ensures
        line_text(s.skip(i)) == s[i].0 + line_text(s.skip(i + 1)),
{
    assert(s.skip(i) =~= seq![s[i]] + s.skip(i + 1));
    lemma_line_text_append(seq![s[i]], s.skip(i + 1));
    assert(seq![s[i]].drop_last() =~= Seq::<SpanView>::empty());
    assert(line_text(Seq::<SpanView>::empty()) =~= Seq::<char>::empty());
    assert(line_text(seq![s[i]]) =~= s[i].0);
}

proof fn lemma_line_cols_text(s: Seq<SpanView>, n: int)
    requires
        0 <= n <= s.len(),
    ensures
        width_upto(s, n) == text_cols(line_text(s.take(n))),
    decreases n,
{
    if n == 0 {
        assert(s.take(0) =~= Seq::<SpanView>::empty());
    } else {
        lemma_line_cols_text(s, n - 1);
        assert(s.take(n).drop_last() =~= s.take(n - 1));
        lemma_text_cols_append(line_text(s.take(n - 1)), s[n - 1].0);
    }
}

proof fn lemma_skip_text(s: Seq<SpanView>, off: int, i: int)
    requires
        0 <= i <= s.len(),
        off >= 0,
    ensures
        off >= line_text(s.skip(i)).len() ==> skip_spans(s, off, i).0 == s.len(),
        off < line_text(s.skip(i)).len() ==> {
            let (f, l) = skip_spans(s, off, i);
            &&& i <= f < s.len()
            &&& 0 <= l < s[f].0.len()
            &&& line_text(s.skip(i)).skip(off) == s[f].0.skip(l) + line_text(s.skip(f + 1))
        },
    decreases s.len() - i,
{
    if i == s.len() {
        assert(s.skip(i) =~= Seq::<SpanView>::empty());
    } else {
        lemma_line_text_front(s, i);
        let a = s[i].0;
        let b = line_text(s.skip(i + 1));
        if off < a.len() {
            assert((a + b).skip(off) =~= a.skip(off) + b);
        } else {
            lemma_skip_text(s, off - a.len(), i + 1);
            if off < a.len() + b.len() {
                assert((a + b).skip(off) =~= b.skip(off - a.len()));
            }
        }
    }
}

/// Scrolling a line: with no offset it is only cut; scrolled past its end
/// it is empty; otherwise it shows the text from the offset on, whole when
/// that fits.
pub proof fn law_scroll_shows_text_from_offset(s: Seq<SpanView>, o: int, w: int)
    requires
        o >= 0,
    ensures
        o == 0 ==> h_scroll_spec(s, o, w) == truncate_spec(s, w),
        o > 0 && line_text(s).len() <= o ==> h_scroll_spec(s, o, w).len() == 0,
        o > 0 && o < line_text(s).len() && w > 0 && text_cols(line_text(s).skip(o)) <= w ==> line_text(
            h_scroll_spec(s, o, w),
        ) == line_text(s).skip(o),
{
    if o > 0 {
        assert(s.skip(0) =~= s);
        lemma_skip_text(s, o, 0);
        let (f, l) = skip_spans(s, o, 0);
        let rest = s.skip(f);
        let shifted = if l > 0 && rest.len() > 0 { rest.update(0, (rest[0].0.skip(l), rest[0].1)) } else { rest };
        if line_text(s).len() <= o {
            assert(rest =~= Seq::<SpanView>::empty());
            assert(width_upto(shifted, 0) == 0);
        } else if w > 0 && text_cols(line_text(s).skip(o)) <= w {
            assert(s[f].0.skip(0) =~= s[f].0);
            assert(rest[0] == s[f]);
            assert(shifted =~= seq![(s[f].0.skip(l), s[f].1)] + s.skip(f + 1));
            lemma_line_text_append(seq![(s[f].0.skip(l), s[f].1)], s.skip(f + 1));
            let one = seq![(s[f].0.skip(l), s[f].1)];
            assert(one.drop_last() =~= Seq::<SpanView>::empty());
            assert(line_text(Seq::<SpanView>::empty()) =~= Seq::<char>::empty());
            assert(line_text(one) =~= s[f].0.skip(l));
            assert(line_text(shifted) =~= line_text(s).skip(o));
            lemma_line_cols_text(shifted, shifted.len() as int);
            assert(shifted.take(shifted.len() as int) =~= shifted);
        }
    }
}

proof fn lemma_line_text_one(x: SpanView)
    ensures
        line_text(seq![x]) == x.0,
{
    assert(seq![x].drop_last() =~= Seq::<SpanView>::empty());
    assert(line_text(Seq::<SpanView>::empty()) =~= Seq::<char>::empty());
    assert(line_text(seq![x]) =~= x.0);
}

/// The first `n` labels joined by `, `, each as its marker (`* ` for HEAD,
/// `⌂ ` for a worktree branch) and its name cut to `max_len` characters.
pub open spec fn labels_joined(labels: Seq<BranchLabel>, n: int, max_len: int) -> Seq<char>
    decreases n,
{
    if n <= 0 {
        Seq::empty()
    } else {
        labels_joined(labels, n - 1, max_len) + (if n - 1 > 0 { seq![',', ' '] } else { Seq::empty() }) + label_kind(
            labels[n - 1],
        ).0 + label_text(labels[n - 1].name@, max_len)
    }
}

proof fn lemma_labels_upto_text(labels: Seq<BranchLabel>, n: int, max_len: int)
    requires
        0 <= n <= labels.len(),
    ensures
        line_text(labels_upto(labels, n, max_len)) == labels_joined(labels, n, max_len),
    decreases n,
{
    if n == 0 {
        assert(line_text(Seq::<SpanView>::empty()) =~= Seq::<char>::empty());
    } else {
        let i = n - 1;
        lemma_labels_upto_text(labels, i, max_len);
        let (prefix, color) = label_kind(labels[i]);
        let sep: Seq<SpanView> = if i > 0 { seq![(seq![',', ' '], fg(Color::Yellow))] } else { Seq::empty() };
        let pre: Seq<SpanView> = if prefix.len() > 0 { seq![(prefix, fg(color))] } else { Seq::empty() };
        let last = seq![(label_text(labels[i].name@, max_len), fg(color))];
        assert(line_text(Seq::<SpanView>::empty()) =~= Seq::<char>::empty());
        lemma_line_text_one((seq![',', ' '], fg(Color::Yellow)));
        lemma_line_text_one((prefix, fg(color)));
        lemma_line_text_one((label_text(labels[i].name@, max_len), fg(color)));
        assert(line_text(sep) == (if i > 0 { seq![',', ' '] } else { Seq::<char>::empty() }));
        assert(line_text(pre) =~= prefix);
        lemma_line_text_append(labels_upto(labels, i, max_len), sep);
        lemma_line_text_append(labels_upto(labels, i, max_len) + sep, pre);
        lemma_line_text_append(labels_upto(labels, i, max_len) + sep + pre, last);
        assert(labels_upto(labels, n, max_len) =~= labels_upto(labels, i, max_len) + sep + pre + last);
    }
}

/// The label text of a commit is `(`, the labels joined by `, ` (each its
/// marker and its name cut to `max_len` characters with `…`), then `) `;
/// with no labels it is empty.
pub proof fn law_label_text_joins_labels(labels: Seq<BranchLabel>, max_len: int)
    ensures
        labels.len() == 0 ==> branch_labels_spec(labels, max_len).len() == 0,
        labels.len() > 0 ==> line_text(branch_labels_spec(labels, max_len)) == seq!['('] + labels_joined(
            labels,
            labels.len() as int,
            max_len,
        ) + seq![')', ' '],
{
    if labels.len() > 0 {
        let n = labels.len() as int;
        let open = seq![(seq!['('], fg(Color::Yellow))];
        let close = seq![(seq![')', ' '], fg(Color::Yellow))];
        lemma_labels_upto_text(labels, n, max_len);
        lemma_line_text_one((seq!['('], fg(Color::Yellow)));
        lemma_line_text_one((seq![')', ' '], fg(Color::Yellow)));
        lemma_line_text_append(open, labels_upto(labels, n, max_len));
        lemma_line_text_append(open + labels_upto(labels, n, max_len), close);
    }
}

proof fn lemma_fork_all_spans(st: LayoutState, col: int, ps: Seq<Oid>)
    requires
        0 <= col < st.1.len(),
        st.1.len() >= st.0.len(),
        st.1.len() + ps.len() <= usize::MAX,
        spans_fit(st.2, st.1.len() as int),
        spans_touch(st.2, col),
    ensures
        ({
            let (a2, l2, s2) = fork_all(st, col, ps);
            &&& st.1.len() <= l2.len() <= st.1.len() + ps.len()
            &&& l2.len() >= a2.len()
            &&& spans_fit(s2, l2.len() as int)
            &&& spans_touch(s2, col)
        }),
    decreases ps.len(),
{
    if ps.len() > 0 {
        let prev = fork_all(st, col, ps.drop_last());
        lemma_fork_all_spans(st, col, ps.drop_last());
        lemma_fork_step(prev, col, ps.last());
        let (a, l, s) = prev;
        let p = ps.last();
        lemma_find_holding(a, p@);
        lemma_find_free(a);
        let (a2, l2, s2) = fork_step(prev, col, p);
        if find_holding(a, p@) == a.len() {
            let nc = find_free(a);
            let lp = pad_empty(l, nc + 1);
            assert(lp.len() <= l.len() + 1);
            assert forall|k: int| 0 <= k < s2.len() implies {
                let (x, y, _c) = #[trigger] s2[k];
                x as int == col || y as int == col
            } by {
                if k < s.len() {
                    assert(s2[k] == s[k]);
                }
            }
        }
        assert(fork_all(st, col, ps) == fork_step(prev, col, p));
    }
}

/// The lane layout of one commit: the commit takes the first lane that
/// awaited it, else the first free lane (or a new one); its row shows at
/// least every lane there was and the commit's own; lanes awaiting other
/// commits keep their place; every parent is awaited afterwards, and no
/// trailing free lane is kept; every connector joins the commit's column to
/// another lane of the row, left to right, in one of the palette's colours;
/// a commit without parents draws no connector and shows its dot.
pub proof fn law_commit_lanes(active: Seq<Option<Oid>>, oid: Oid, parents: Seq<Oid>)
    requires
        active.len() + parents.len() + 1 <= usize::MAX,
    ensures
        ({
            let (col, lanes, spans, after) = process_spec(active, oid, parents);
            &&& find_holding(active, oid@) < active.len() ==> col == find_holding(active, oid@)
            &&& find_holding(active, oid@) == active.len() ==> col == find_free(active)
            &&& 0 <= col < lanes.len()
            &&& lanes.len() >= active.len()
            &&& lanes.len() >= after.len()
            &&& forall|i: int|
                0 <= i < active.len() && i != col && (#[trigger] active[i]) is Some ==> i < after.len() && after[i]
                    == active[i]
            &&& forall|k: int|
                0 <= k < parents.len() ==> exists|j: int|
                    0 <= j < after.len() && holds(#[trigger] after[j], (#[trigger] parents[k])@)
            &&& after.len() == 0 || after.last() is Some
            &&& spans_fit(spans, lanes.len() as int)
            &&& spans_touch(spans, col)
            &&& parents.len() == 0 ==> spans.len() == 0 && lanes[col] == LaneSegment::Commit
        }),
{
    lemma_process_spec(active, oid, parents);
    lemma_find_holding(active, oid@);
    lemma_find_free(active);
    let (col, a1) = place(active, oid);
    assert(a1.len() <= active.len() + 1);
    let l0 = initial_segments(a1, col);
    let a2 = a1.update(col, None);
    if parents.len() > 0 {
        let fp = parents[0];
        let rest = parents.drop_first();
        lemma_find_holding(a2, fp@);
        let st1 = first_parent_state(a2, l0, col, fp);
        assert(st1.1.len() == l0.len());
        assert(spans_fit(st1.2, st1.1.len() as int));
        assert(spans_touch(st1.2, col));
        lemma_fork_all_spans(st1, col, rest);
        let (a4, l2, s2) = fork_all(st1, col, rest);
        lemma_fill(l2, s2);
    }
}

/// Whether row `i` lies in segment `s`.
pub open spec fn in_segment(segs: Seq<BranchSegment>, s: int, i: int) -> bool {
    exists|k: int| 0 <= k < segs[s].row_indices@.len() && #[trigger] segs[s].row_indices@[k] == i
}

/// Rows each folded segment among the first `m` gives up: all but its tip.
pub open spec fn folded_away(segs: Seq<BranchSegment>, collapsed: Seq<String>, m: int) -> int
    decreases m,
{
    if m <= 0 {
        0
    } else {
        folded_away(segs, collapsed, m - 1) + if seg_collapsed(segs, collapsed, m - 1) {
            segs[m - 1].row_indices@.len() - 1
        } else {
            0
        }
    }
}

/// Rows below `n` that lie in a folded segment among the first `m`, other
/// than that segment's tip.
spec fn dropped_by(segs: Seq<BranchSegment>, collapsed: Seq<String>, m: int, n: int) -> int
    decreases n,
{
    if n <= 0 {
        0
    } else {
        dropped_by(segs, collapsed, m, n - 1) + if exists|s: int|
            0 <= s < m && seg_collapsed(segs, collapsed, s) && #[trigger] in_segment(segs, s, n - 1)
                && segs[s].row_indices@[0] != n - 1 {
            1int
        } else {
            0int
        }
    }
}

/// Rows below `n` listed in `ri`.
spec fn listed_below(ri: Seq<usize>, n: int) -> int
    decreases n,
{
    if n <= 0 {
        0
    } else {
        listed_below(ri, n - 1) + if exists|k: int| 0 <= k < ri.len() && #[trigger] ri[k] == n - 1 {
            1int
        } else {
            0int
        }
    }
}

/// No row lies in two segments.
spec fn segments_disjoint(segs: Seq<BranchSegment>) -> bool {
    forall|s1: int, k1: int, s2: int, k2: int|
        0 <= s1 < segs.len() && 0 <= k1 < segs[s1].row_indices@.len() && 0 <= s2 < segs.len() && 0 <= k2
            < segs[s2].row_indices@.len() && #[trigger] segs[s1].row_indices@[k1] == #[trigger] segs[s2].row_indices@[k2]
            ==> s1 == s2
}

proof fn lemma_listed_below_push(ri: Seq<usize>, x: usize, n: int)
    requires
        n >= 0,
        forall|k: int| 0 <= k < ri.len() ==> #[trigger] ri[k] < x,
    ensures
        listed_below(ri.push(x), n) == listed_below(ri, n) + if x < n { 1int } else { 0int },
    decreases n,
{
    if n > 0 {
        lemma_listed_below_push(ri, x, n - 1);
        let r2 = ri.push(x);
        if exists|k: int| 0 <= k < r2.len() && #[trigger] r2[k] == n - 1 {
            let k = choose|k: int| 0 <= k < r2.len() && #[trigger] r2[k] == n - 1;
            if k < ri.len() {
                assert(ri[k] == n - 1);
            }
        }
        if exists|k: int| 0 <= k < ri.len() && #[trigger] ri[k] == n - 1 {
            let k = choose|k: int| 0 <= k < ri.len() && #[trigger] ri[k] == n - 1;
            assert(r2[k] == n - 1);
        }
        if x == n - 1 {
            assert(r2[ri.len() as int] == n - 1);
        }
    }
}

proof fn lemma_listed_below_all(ri: Seq<usize>, n: int)
    requires
        n >= 0,
        forall|k1: int, k2: int| 0 <= k1 < k2 < ri.len() ==> #[trigger] ri[k1] < #[trigger] ri[k2],
        forall|k: int| 0 <= k < ri.len() ==> #[trigger] ri[k] < n,
    ensures
        listed_below(ri, n) == ri.len(),
    decreases ri.len(),
{
    if ri.len() == 0 {
        lemma_listed_below_none(ri, n);
    } else {
        let r0 = ri.drop_last();
        assert forall|k: int| 0 <= k < r0.len() implies #[trigger] r0[k] < ri.last() by {
            assert(ri[k] < ri[ri.len() - 1]);
        }
        lemma_listed_below_all(r0, n);
        lemma_listed_below_push(r0, ri.last(), n);
        assert(r0.push(ri.last()) =~= ri);
    }
}

proof fn lemma_listed_below_none(ri: Seq<usize>, n: int)
    requires
        ri.len() == 0,
    ensures
        listed_below(ri, n) == 0,
    decreases n,
{
    if n > 0 {
        lemma_listed_below_none(ri, n - 1);
    }
}

proof fn lemma_dropped_by_none(segs: Seq<BranchSegment>, collapsed: Seq<String>, n: int)
    ensures
        dropped_by(segs, collapsed, 0, n) == 0,
    decreases n,
{
    if n > 0 {
        lemma_dropped_by_none(segs, collapsed, n - 1);
    }
}

proof fn lemma_dropped_by_step(segs: Seq<BranchSegment>, collapsed: Seq<String>, m: int, n: int)
    requires
        0 <= m < segs.len(),
        n >= 0,
        segs[m].row_indices@.len() > 0,
        segments_disjoint(segs),
    ensures
        dropped_by(segs, collapsed, m + 1, n) == dropped_by(segs, collapsed, m, n) + if seg_collapsed(segs, collapsed, m) {
            listed_below(segs[m].row_indices@, n) - if segs[m].row_indices@[0] < n { 1int } else { 0int }
        } else {
            0int
        },
    decreases n,
{
    if n > 0 {
        lemma_dropped_by_step(segs, collapsed, m, n - 1);
        let i = n - 1;
        let ri = segs[m].row_indices@;
        let pm = exists|s: int|
            0 <= s < m && seg_collapsed(segs, collapsed, s) && #[trigger] in_segment(segs, s, i) && segs[s].row_indices@[0]
                != i;
        let pm1 = exists|s: int|
            0 <= s < m + 1 && seg_collapsed(segs, collapsed, s) && #[trigger] in_segment(segs, s, i)
                && segs[s].row_indices@[0] != i;
        let inm = exists|k: int| 0 <= k < ri.len() && #[trigger] ri[k] == i;
        assert(inm == in_segment(segs, m, i));
        if pm {
            let s = choose|s: int|
                0 <= s < m && seg_collapsed(segs, collapsed, s) && #[trigger] in_segment(segs, s, i)
                    && segs[s].row_indices@[0] != i;
            if inm {
                let k = choose|k: int| 0 <= k < ri.len() && #[trigger] ri[k] == i;
                let k2 = choose|k: int| 0 <= k < segs[s].row_indices@.len() && #[trigger] segs[s].row_indices@[k] == i;
                assert(segs[s].row_indices@[k2] == segs[m].row_indices@[k]);
            }
            assert(pm1);
        }
        if pm1 && !pm {
            let s = choose|s: int|
                0 <= s < m + 1 && seg_collapsed(segs, collapsed, s) && #[trigger] in_segment(segs, s, i)
                    && segs[s].row_indices@[0] != i;
            assert(s == m);
        }
        if !pm && seg_collapsed(segs, collapsed, m) && inm && ri[0] != i {
            assert(in_segment(segs, m, i));
            assert(pm1);
        }
        if ri[0] == i {
            assert(ri[0] == i);
            assert(inm);
        }
    }
}

proof fn lemma_dropped_rows_by(segs: Seq<BranchSegment>, collapsed: Seq<String>, n: int)
    requires
        n >= 0,
        segments_nonempty(segs),
        segments_disjoint(segs),
    ensures
        dropped_rows(segs, collapsed, n) == dropped_by(segs, collapsed, segs.len() as int, n),
    decreases n,
{
    if n > 0 {
        lemma_dropped_rows_by(segs, collapsed, n - 1);
        let i = n - 1;
        let a = row_hidden(segs, collapsed, i) && !folded_tip(segs, collapsed, i);
        let b = exists|s: int|
            0 <= s < segs.len() && seg_collapsed(segs, collapsed, s) && #[trigger] in_segment(segs, s, i)
                && segs[s].row_indices@[0] != i;
        if a {
            let (s, k) = choose|s: int, k: int|
                0 <= s < segs.len() && seg_collapsed(segs, collapsed, s) && 0 <= k < segs[s].row_indices@.len()
                    && #[trigger] segs[s].row_indices@[k] == i;
            assert(in_segment(segs, s, i));
            assert(segs[s].row_indices@.len() > 0);
            if segs[s].row_indices@[0] == i {
                assert(folded_tip(segs, collapsed, i));
            }
            assert(b);
        }
        if b {
            let s = choose|s: int|
                0 <= s < segs.len() && seg_collapsed(segs, collapsed, s) && #[trigger] in_segment(segs, s, i)
                    && segs[s].row_indices@[0] != i;
            let k = choose|k: int| 0 <= k < segs[s].row_indices@.len() && #[trigger] segs[s].row_indices@[k] == i;
            assert(row_hidden(segs, collapsed, i));
            if folded_tip(segs, collapsed, i) {
                let t = choose|t: int|
                    0 <= t < segs.len() && seg_collapsed(segs, collapsed, t) && segs[t].row_indices@.len() > 0
                        && #[trigger] segs[t].row_indices@[0] == i;
                assert(segs[t].row_indices@[0] == segs[s].row_indices@[k]);
            }
            assert(a);
        }
    }
}

proof fn lemma_dropped_by_sum(segs: Seq<BranchSegment>, collapsed: Seq<String>, m: int, n: int)
    requires
        0 <= m <= segs.len(),
        n >= 0,
        segments_nonempty(segs),
        segments_disjoint(segs),
        forall|s: int, k1: int, k2: int|
            0 <= s < segs.len() && 0 <= k1 < k2 < segs[s].row_indices@.len() ==> #[trigger] segs[s].row_indices@[k1]
                < #[trigger] segs[s].row_indices@[k2],
        forall|s: int, k: int| 0 <= s < segs.len() && 0 <= k < segs[s].row_indices@.len() ==> #[trigger] segs[s].row_indices@[k] < n,
    ensures
        dropped_by(segs, collapsed, m, n) == folded_away(segs, collapsed, m),
    decreases m,
{
    if m == 0 {
        lemma_dropped_by_none(segs, collapsed, n);
    } else {
        lemma_dropped_by_sum(segs, collapsed, m - 1, n);
        let ri = segs[m - 1].row_indices@;
        assert(ri.len() > 0);
        lemma_dropped_by_step(segs, collapsed, m - 1, n);
        assert forall|k1: int, k2: int| 0 <= k1 < k2 < ri.len() implies #[trigger] ri[k1] < #[trigger] ri[k2] by {
            assert(segs[m - 1].row_indices@[k1] < segs[m - 1].row_indices@[k2]);
        }
        assert forall|k: int| 0 <= k < ri.len() implies #[trigger] ri[k] < n by {
            assert(segs[m - 1].row_indices@[k] < n);
        }
        lemma_listed_below_all(ri, n);
    }
}

/// Folding shows as many rows as are loaded, less, for each folded segment,
/// all its rows but its tip.
pub proof fn law_folding_row_count(
    rows: Seq<GraphRow>,
    segs: Seq<BranchSegment>,
    collapsed: Seq<String>,
    out: Seq<GraphRow>,
)
    requires
        segments_spec(rows, segs),
        collapsed_rows_spec(rows, segs, collapsed, out),
    ensures
        out.len() == rows.len() - folded_away(segs, collapsed, segs.len() as int),
{
    law_segments_partition(rows, segs);
    assert(segments_nonempty(segs));
    law_folding_drops_and_summarises(rows, segs, collapsed, out);
    lemma_dropped_rows_by(segs, collapsed, rows.len() as int);
    lemma_dropped_by_sum(segs, collapsed, segs.len() as int, rows.len() as int);
}

proof fn lemma_matches_upto(rows: Seq<GraphRow>, q: Seq<char>, n: int)
    requires
        0 <= n <= rows.len(),
        rows.len() <= usize::MAX,
    ensures
        ({
            let m = matches_upto(rows, q, n);
            &&& forall|a: int, b: int| 0 <= a < b < m.len() ==> #[trigger] m[a] < #[trigger] m[b]
            &&& forall|a: int| 0 <= a < m.len() ==> #[trigger] m[a] < n
            &&& forall|x: int| 0 <= x < n ==> (m.contains(x as usize) <==> row_matches(rows[x], q))
        }),
    decreases n,
{
    if n > 0 {
        lemma_matches_upto(rows, q, n - 1);
        let prev = matches_upto(rows, q, n - 1);
        let m = matches_upto(rows, q, n);
        assert forall|x: int| 0 <= x < n implies (m.contains(x as usize) <==> row_matches(rows[x], q)) by {
            if row_matches(rows[n - 1], q) {
                assert(m == prev.push((n - 1) as usize));
                if x == n - 1 {
                    assert(m[prev.len() as int] == x as usize);
                } else {
                    if m.contains(x as usize) {
                        let k = choose|k: int| 0 <= k < m.len() && m[k] == x as usize;
                        if k == prev.len() {
                            assert(false);
                        }
                        assert(prev[k] == x as usize);
                    }
                    if prev.contains(x as usize) {
                        let k = choose|k: int| 0 <= k < prev.len() && prev[k] == x as usize;
                        assert(m[k] == x as usize);
                    }
                }
            } else if x == n - 1 {
                if prev.contains(x as usize) {
                    let k = choose|k: int| 0 <= k < prev.len() && prev[k] == x as usize;
                    assert(prev[k] < n - 1);
                }
            }
        }
    }
}

/// Search lists, in increasing order, exactly the rows whose message,
/// author or short id contains the query ignoring case; an empty query
/// lists none.
pub proof fn law_search_lists_matching_rows(input: Seq<char>, rows: Seq<GraphRow>)
    requires
        rows.len() <= usize::MAX,
    ensures
        input.len() == 0 ==> matching_rows_spec(input, rows).len() == 0,
        forall|a: int, b: int|
            0 <= a < b < matching_rows_spec(input, rows).len() ==> #[trigger] matching_rows_spec(input, rows)[a]
                < #[trigger] matching_rows_spec(input, rows)[b],
        input.len() > 0 ==> forall|x: int|
            0 <= x < rows.len() ==> (matching_rows_spec(input, rows).contains(x as usize) <==> #[trigger] row_matches(
                rows[x],
                lowercase(input),
            )),
        forall|a: int| 0 <= a < matching_rows_spec(input, rows).len() ==> #[trigger] matching_rows_spec(input, rows)[a] < rows.len(),
{
    if input.len() > 0 {
        lemma_matches_upto(rows, lowercase(input), rows.len() as int);
    }
}

proof fn lemma_line_text_split(s: Seq<SpanView>, k: int)
    requires
        0 <= k < s.len(),
    ensures
        line_text(s) == line_text(s.take(k)) + s[k].0 + line_text(s.skip(k + 1)),
{
    assert(s =~= s.take(k) + (seq![s[k]] + s.skip(k + 1)));
    lemma_line_text_append(s.take(k), seq![s[k]] + s.skip(k + 1));
    lemma_line_text_append(seq![s[k]], s.skip(k + 1));
    lemma_line_text_one(s[k]);
    assert(line_text(s.take(k)) + (s[k].0 + line_text(s.skip(k + 1))) =~= line_text(s.take(k)) + s[k].0 + line_text(
        s.skip(k + 1),
    ));
}

proof fn lemma_line_text_cut(s: Seq<SpanView>, k: int, e: Seq<char>, st: Style)
    requires
        0 <= k <= s.len(),
    ensures
        line_text(s.take(k) + seq![(e, st)]) == line_text(s.take(k)) + e,
{
    lemma_line_text_append(s.take(k), seq![(e, st)]);
    lemma_line_text_one((e, st));
}

proof fn lemma_ascii_width_upto(s: Seq<SpanView>, n: int)
    requires
        ascii_widths_known(s),
        plain_ascii_line(s),
        0 <= n <= s.len(),
    ensures
        width_upto(s, n) == line_text(s.take(n)).len(),
    decreases n,
{
    if n == 0 {
        assert(s.take(0) =~= Seq::<SpanView>::empty());
    } else {
        lemma_ascii_width_upto(s, n - 1);
        lemma_plain_span_cols(s, n - 1);
        assert(s.take(n).drop_last() =~= s.take(n - 1));
    }
}

proof fn lemma_fit_unit(c: Seq<char>, k: int, i: int)
    requires
        forall|j: int| 0 <= j < c.len() ==> char_columns(#[trigger] c[j]) == 1,
        0 <= i <= k,
        i <= c.len(),
    ensures
        fit_from(c, k, i) == if k < c.len() { k } else { c.len() as int },
    decreases c.len() - i,
{
    if i < c.len() {
        let t = c.take(i + 1);
        assert forall|j: int| 0 <= j < t.len() implies char_columns(#[trigger] t[j]) == 1 by {
            assert(t[j] == c[j]);
        }
        lemma_plain_text_cols(t);
        if i < k {
            lemma_fit_unit(c, k, i + 1);
        }
    }
}

/// `t` is the first `m` characters of `full` followed by `d` dots, `d` at
/// most two.
pub open spec fn prefix_then_dots(t: Seq<char>, full: Seq<char>, m: int, d: int) -> bool {
    &&& 0 <= d <= 2
    &&& 0 <= m <= full.len()
    &&& t == full.take(m) + repeat_char('.', d as nat)
}

/// What cutting a line keeps: nothing at width zero; the line itself when
/// it fits; otherwise at most as many spans, the same up to the last kept
/// one, which keeps its style, and a text that is a start of the line's
/// text followed by at most two dots. For a line of printable ASCII that
/// does not fit, the start kept is as long as the width less the dots.
pub proof fn law_truncate_keeps_a_start(s: Seq<SpanView>, w: int)
    ensures
        w <= 0 ==> truncate_spec(s, w).len() == 0,
        w > 0 && line_cols(s) <= w ==> truncate_spec(s, w) == s,
        truncate_spec(s, w).len() <= s.len(),
        forall|i: int| 0 <= i < truncate_spec(s, w).len() ==> (#[trigger] truncate_spec(s, w)[i]).1 == s[i].1,
        forall|i: int| 0 <= i < truncate_spec(s, w).len() - 1 ==> #[trigger] truncate_spec(s, w)[i] == s[i],
        exists|m: int, d: int| #[trigger] prefix_then_dots(line_text(truncate_spec(s, w)), line_text(s), m, d),
        w > 0 && line_cols(s) > w && ascii_widths_known(s) && plain_ascii_line(s) ==> exists|d: int|
            #[trigger] prefix_then_dots(line_text(truncate_spec(s, w)), line_text(s), w - d, d),
{
    let r = truncate_spec(s, w);
    let full = line_text(s);
    let ascii = ascii_widths_known(s) && plain_ascii_line(s);
    assert(full.take(full.len() as int) =~= full);
    assert(repeat_char('.', 0) =~= Seq::<char>::empty());
    assert(repeat_char('.', 1) =~= seq!['.']);
    assert(repeat_char('.', 2) =~= seq!['.', '.']);
    if w <= 0 {
        assert(line_text(r) =~= Seq::<char>::empty());
        assert(full.take(0) + repeat_char('.', 0) =~= Seq::<char>::empty());
        assert(prefix_then_dots(line_text(r), full, 0, 0));
    } else if line_cols(s) <= w {
        assert(full.take(full.len() as int) + repeat_char('.', 0) =~= full);
        assert(prefix_then_dots(line_text(r), full, full.len() as int, 0));
    } else {
        lemma_cut_index(s, w, 0);
        let cut = cut_index(s, w, 0);
        let rem = w - width_upto(s, cut);
        if ascii {
            lemma_ascii_width_upto(s, cut);
            lemma_plain_span_cols(s, cut);
        }
        if rem >= 1 {
            let c = s[cut].0;
            let a = line_text(s.take(cut));
            lemma_line_text_split(s, cut);
            lemma_line_text_cut(s, cut, ellipsize(c, rem), s[cut].1);
            if rem >= 2 {
                assert(c.take(0) =~= Seq::<char>::empty());
                lemma_fit(c, rem - 2, 0);
                let f = fit_from(c, rem - 2, 0);
                assert(full.take(a.len() + f) =~= a + c.take(f));
                assert(line_text(r) =~= full.take(a.len() + f) + repeat_char('.', 2));
                assert(prefix_then_dots(line_text(r), full, a.len() + f, 2));
                if ascii {
                    assert forall|j: int| 0 <= j < c.len() implies char_columns(#[trigger] c[j]) == 1 by {
                        assert(c[j] == s[cut].0[j]);
                    }
                    lemma_fit_unit(c, rem - 2, 0);
                    assert(prefix_then_dots(line_text(r), full, w - 2, 2));
                }
            } else {
                assert(full.take(a.len() as int) =~= a);
                assert(line_text(r) =~= full.take(a.len() as int) + repeat_char('.', 1));
                assert(prefix_then_dots(line_text(r), full, a.len() as int, 1));
                if ascii {
                    assert(prefix_then_dots(line_text(r), full, w - 1, 1));
                }
            }
        } else if cut == 0 {
            assert(line_text(r) =~= Seq::<char>::empty());
            assert(full.take(0) + repeat_char('.', 0) =~= Seq::<char>::empty());
            assert(prefix_then_dots(line_text(r), full, 0, 0));
        } else {
            let k = cut - 1;
            let c = s[k].0;
            let lw = text_cols(c);
            lemma_text_cols_nonneg(c);
            let a = line_text(s.take(k));
            lemma_line_text_split(s, k);
            lemma_line_text_cut(s, k, ellipsize(c, lw), s[k].1);
            if ascii {
                lemma_ascii_width_upto(s, k);
                lemma_plain_span_cols(s, k);
            }
            if lw >= 2 {
                assert(c.take(0) =~= Seq::<char>::empty());
                lemma_fit(c, lw - 2, 0);
                let f = fit_from(c, lw - 2, 0);
                assert(full.take(a.len() + f) =~= a + c.take(f));
                assert(line_text(r) =~= full.take(a.len() + f) + repeat_char('.', 2));
                assert(prefix_then_dots(line_text(r), full, a.len() + f, 2));
                if ascii {
                    assert forall|j: int| 0 <= j < c.len() implies char_columns(#[trigger] c[j]) == 1 by {
                        assert(c[j] == s[k].0[j]);
                    }
                    lemma_fit_unit(c, lw - 2, 0);
                    assert(prefix_then_dots(line_text(r), full, w - 2, 2));
                }
            } else {
                assert(full.take(a.len() as int) =~= a);
                assert(line_text(r) =~= full.take(a.len() as int) + repeat_char('.', lw as nat));
                assert(prefix_then_dots(line_text(r), full, a.len() as int, lw));
                if ascii {
                    assert(prefix_then_dots(line_text(r), full, w - lw, lw));
                }
            }
        }
    }
}

// ---------------------------------------------------------------------------
// Connectors are drawn without gaps
// ---------------------------------------------------------------------------

/// Whether a lane segment shows something besides a plain lane or nothing.
pub open spec fn drawn(seg: LaneSegment) -> bool {
    seg != LaneSegment::Empty && seg != LaneSegment::Straight
}

proof fn lemma_fill_drawn(l: Seq<LaneSegment>, spans: Seq<Span3>)
    requires
        forall|k: int| 0 <= k < spans.len() ==> ((#[trigger] spans[k]).1 as int) < l.len(),
    ensures
        fill(l, spans).len() == l.len(),
        forall|k: int, i: int|
            0 <= k < spans.len() && (#[trigger] spans[k]).0 < i < spans[k].1 ==> drawn(#[trigger] fill(l, spans)[i]),
        forall|i: int| 0 <= i < l.len() && drawn(l[i]) ==> drawn(#[trigger] fill(l, spans)[i]),
    decreases spans.len(),
{
    if spans.len() > 0 {
        let front = spans.drop_last();
        assert forall|k: int| 0 <= k < front.len() implies ((#[trigger] front[k]).1 as int) < l.len() by {
            assert(front[k] == spans[k]);
        }
        lemma_fill_drawn(l, front);
        let m = fill(l, front);
        let sp = spans.last();
        let f = fill(l, spans);
        assert(f == fill_span(m, sp));
        assert forall|k: int, i: int| 0 <= k < spans.len() && (#[trigger] spans[k]).0 < i < spans[k].1 implies drawn(
            #[trigger] f[i],
        ) by {
            assert(i < l.len());
            if k < front.len() {
                assert(front[k] == spans[k]);
                assert(drawn(m[i]));
            }
            assert(f[i] == fill_at(m, sp, i));
        }
        assert forall|i: int| 0 <= i < l.len() && drawn(l[i]) implies drawn(#[trigger] f[i]) by {
            assert(drawn(m[i]));
            assert(f[i] == fill_at(m, sp, i));
        }
    }
}

/// Every connector of a commit's row is drawn across the lanes between its
/// ends: none of them is left blank or as a plain lane (a free lane shows
/// a dash, a crossed lane a crossing).
pub proof fn law_connectors_are_drawn(active: Seq<Option<Oid>>, oid: Oid, parents: Seq<Oid>)
    requires
        active.len() + parents.len() + 1 <= usize::MAX,
    ensures
        ({
            let (col, lanes, spans, after) = process_spec(active, oid, parents);
            forall|k: int, i: int|
                0 <= k < spans.len() && (#[trigger] spans[k]).0 < i < spans[k].1 ==> drawn(#[trigger] lanes[i])
        }),
{
    law_commit_lanes(active, oid, parents);
    if parents.len() > 0 {
        let (col, a1) = place(active, oid);
        let l0 = initial_segments(a1, col);
        let a2 = a1.update(col, None);
        let st1 = first_parent_state(a2, l0, col, parents[0]);
        let (a4, l2, s2) = fork_all(st1, col, parents.drop_first());
        lemma_fill(l2, s2);
        let (c, lanes, spans, after) = process_spec(active, oid, parents);
        assert(lanes == fill(l2, s2) && spans == s2);
        assert forall|k: int| 0 <= k < s2.len() implies ((#[trigger] s2[k]).1 as int) < l2.len() by {
            let (x, y, z) = s2[k];
        }
        lemma_fill_drawn(l2, s2);
    }
}

// ---------------------------------------------------------------------------
// Tags are labelled under every branch filter
// ---------------------------------------------------------------------------

/// The label of tag `name`.
pub open spec fn tag_label(name: String) -> BranchLabel {
    BranchLabel { name, is_head: false, is_remote: false, is_worktree: false, is_tag: true }
}

proof fn lemma_labels_of_has(es: Seq<(Oid, BranchLabel)>, id: Seq<char>, k: int)
    requires
        0 <= k < es.len(),
        es[k].0@ == id,
    ensures
        exists|x: int| 0 <= x < labels_of(es, id).len() && labels_of(es, id)[x] == es[k].1,
    decreases es.len(),
{
    let prev = labels_of(es.drop_last(), id);
    if k < es.len() - 1 {
        assert(es.drop_last()[k] == es[k]);
        lemma_labels_of_has(es.drop_last(), id, k);
        let x = choose|x: int| 0 <= x < prev.len() && prev[x] == es[k].1;
        assert(labels_of(es, id)[x] == es[k].1);
    } else {
        assert(labels_of(es, id)[prev.len() as int] == es[k].1);
    }
}

proof fn lemma_positions_cover(p: Seq<usize>, x: int)
    requires
        forall|i: int| 0 <= i < p.len() ==> (#[trigger] p[i]) < p.len(),
        forall|i: int, j: int| 0 <= i < j < p.len() ==> #[trigger] p[i] != #[trigger] p[j],
        0 <= x < p.len(),
    ensures
        exists|i: int| 0 <= i < p.len() && p[i] as int == x,
{
    let n = p.len() as int;
    let q = p.map_values(|v: usize| v as int);
    assert forall|i: int, j: int| 0 <= i < q.len() && 0 <= j < q.len() && i != j implies q[i] != q[j] by {
        if i < j {
            assert(p[i] != p[j]);
        } else {
            assert(p[j] != p[i]);
        }
    }
    assert(q.no_duplicates());
    q.unique_seq_to_set();
    vstd::set_lib::lemma_int_range(0, n);
    assert forall|v: int| q.to_set().contains(v) implies vstd::set_lib::set_int_range(0, n).contains(v) by {
        let i = choose|i: int| 0 <= i < q.len() && q[i] == v;
        assert(p[i] < n);
    }
    vstd::seq_lib::seq_to_set_is_finite(q);
    vstd::set_lib::lemma_subset_equality(q.to_set(), vstd::set_lib::set_int_range(0, n));
    assert(vstd::set_lib::set_int_range(0, n).contains(x));
    assert(q.to_set().contains(x));
    let i = choose|i: int| 0 <= i < q.len() && q[i] == x;
    assert(p[i] as int == x);
}

/// Under every branch filter but `Off`, each tag is shown: the commit it
/// points at has an entry, and that entry holds the tag's label.
pub proof fn law_every_tag_is_shown(
    local: Seq<(String, Oid)>,
    remote: Seq<(String, Oid)>,
    tags: Seq<(String, Oid)>,
    head_oid: Option<Oid>,
    head_name: Option<String>,
    worktree_branches: Seq<String>,
    filter: BranchFilter,
    r: Seq<RefLabels>,
)
    requires
        filter != BranchFilter::Off,
        ({
            let entries = shown_entries(local, remote, tags, head_oid, head_name, worktree_branches, filter);
            &&& forall|k: int| 0 <= k < entries.len() ==> has_entry(r, (#[trigger] entries[k]).0@)
            &&& forall|g: int| 0 <= g < r.len() ==> sorted_entry(#[trigger] r[g], entries)
        }),
    ensures
        forall|t: int|
            0 <= t < tags.len() ==> exists|g: int, i: int|
                0 <= g < r.len() && 0 <= i < r[g].labels@.len() && r[g].oid@ == (#[trigger] tags[t]).1@
                    && r[g].labels@[i] == tag_label(tags[t].0),
{
    let es = shown_entries(local, remote, tags, head_oid, head_name, worktree_branches, filter);
    let l = branch_entries(local, false, head_oid, head_name, worktree_branches);
    let rm = branch_entries(remote, true, head_oid, head_name, worktree_branches);
    let te = tag_entries(tags);
    let off: int = match filter {
        BranchFilter::All => (l.len() + rm.len()) as int,
        BranchFilter::Local => l.len() as int,
        BranchFilter::Remote => rm.len() as int,
        BranchFilter::Off => 0,
    };
    assert forall|t: int| 0 <= t < tags.len() implies exists|g: int, i: int|
        0 <= g < r.len() && 0 <= i < r[g].labels@.len() && r[g].oid@ == (#[trigger] tags[t]).1@ && r[g].labels@[i]
            == tag_label(tags[t].0) by {
        let k = off + t;
        assert(te[t] == (tags[t].1, tag_label(tags[t].0)));
        assert(es[k] == te[t]);
        assert(has_entry(r, es[k].0@));
        let g = choose|g: int| 0 <= g < r.len() && (#[trigger] r[g]).oid@ == es[k].0@;
        assert(sorted_entry(r[g], es));
        let ls = labels_of(es, r[g].oid@);
        let p = choose|p: Seq<usize>| #[trigger] sorted_as(r[g].labels@, ls, p);
        lemma_labels_of_has(es, r[g].oid@, k);
        let x = choose|x: int| 0 <= x < ls.len() && ls[x] == es[k].1;
        assert(label_keys(ls).len() == ls.len());
        lemma_positions_cover(p, x);
        let i = choose|i: int| 0 <= i < p.len() && p[i] as int == x;
        assert(r[g].labels@[i] == ls[p[i] as int]);
        assert(r[g].labels@[i] == tag_label(tags[t].0));
    }
}

// ---------------------------------------------------------------------------
// The first remote wins
// ---------------------------------------------------------------------------

/// Index of the first of the remotes `s..` that yields a browser URL, or
/// the number of remotes when none does.
pub open spec fn first_yielding(remotes: Seq<RemoteUrls>, hosts: Seq<String>, s: int) -> int
    decreases remotes.len() - s,
{
    if s < 0 || s >= remotes.len() {
        remotes.len() as int
    } else if remote_web_url(remotes[s], hosts) is Some {
        s
    } else {
        first_yielding(remotes, hosts, s + 1)
    }
}

proof fn lemma_first_remote_from(remotes: Seq<RemoteUrls>, hosts: Seq<String>, s: int)
    requires
        0 <= s <= remotes.len(),
    ensures
        s <= first_yielding(remotes, hosts, s) <= remotes.len(),
        first_yielding(remotes, hosts, s) < remotes.len() ==> remote_web_url(
            remotes[first_yielding(remotes, hosts, s)],
            hosts,
        ) is Some,
        first_remote_web_url(remotes, hosts, s) == if first_yielding(remotes, hosts, s) < remotes.len() {
            remote_web_url(remotes[first_yielding(remotes, hosts, s)], hosts)
        } else {
            None
        },
        forall|j: int|
            s <= j < first_yielding(remotes, hosts, s) ==> (#[trigger] remote_web_url(remotes[j], hosts)) is None,
    decreases remotes.len() - s,
{
    if s < remotes.len() && remote_web_url(remotes[s], hosts) is None {
        lemma_first_remote_from(remotes, hosts, s + 1);
    }
}

/// The browser URL of a repository comes from the first remote, in
/// configuration order, that yields one: no remote before it yields any,
/// and with none yielding one there is no URL.
pub proof fn law_first_remote_wins(remotes: Seq<RemoteUrls>, hosts: Seq<String>)
    ensures
        ({
            let f = first_yielding(remotes, hosts, 0);
            &&& 0 <= f <= remotes.len()
            &&& forall|j: int| 0 <= j < f ==> (#[trigger] remote_web_url(remotes[j], hosts)) is None
            &&& f < remotes.len() ==> remote_web_url(remotes[f], hosts) is Some && first_remote_web_url(remotes, hosts, 0)
                == remote_web_url(remotes[f], hosts)
            &&& f == remotes.len() ==> first_remote_web_url(remotes, hosts, 0) is None
        }),
{
    lemma_first_remote_from(remotes, hosts, 0);
}

// ---------------------------------------------------------------------------
// Repositories are ordered by folder name
// ---------------------------------------------------------------------------

/// Folder name of a path with ASCII letters lower-cased (empty without one).
pub open spec fn folder_key(path: Seq<char>) -> Seq<char> {
    ascii_lowercase(
        match file_name_spec(path) {
            Some(n) => n,
            None => Seq::empty(),
        },
    )
}

/// `a` comes before `b` or equals it, character by character.
pub open spec fn key_le(a: Seq<char>, b: Seq<char>) -> bool {
    lex_lt(a, b) || a == b
}

/// Paths in non-decreasing folder-name order.
pub open spec fn by_folder(s: Seq<Seq<char>>) -> bool {
    forall|a: int, b: int| 0 <= a < b < s.len() ==> key_le(folder_key(#[trigger] s[a]), folder_key(#[trigger] s[b]))
}

proof fn lemma_filter_by_folder(s: Seq<Seq<char>>, pred: spec_fn(Seq<char>) -> bool)
    requires
        by_folder(s),
    ensures
        by_folder(s.filter(pred)),
        forall|i: int| 0 <= i < s.filter(pred).len() ==> exists|a: int| 0 <= a < s.len() && s[a] == #[trigger] s.filter(pred)[i],
    decreases s.len(),
{
    reveal(Seq::filter);
    if s.len() > 0 {
        let d = s.drop_last();
        assert forall|a: int, b: int| 0 <= a < b < d.len() implies key_le(folder_key(#[trigger] d[a]), folder_key(#[trigger] d[b])) by {
            assert(d[a] == s[a] && d[b] == s[b]);
        }
        lemma_filter_by_folder(d, pred);
        let sub = d.filter(pred);
        let out = s.filter(pred);
        if pred(s.last()) {
            assert(out == sub.push(s.last()));
            assert forall|a: int, b: int| 0 <= a < b < out.len() implies key_le(folder_key(#[trigger] out[a]), folder_key(#[trigger] out[b])) by {
                assert(out[a] == sub[a]);
                if b < sub.len() {
                    assert(out[b] == sub[b]);
                } else {
                    let a2 = choose|a2: int| 0 <= a2 < d.len() && d[a2] == #[trigger] sub[a];
                    assert(s[a2] == d[a2]);
                    assert(out[b] == s[s.len() - 1]);
                }
            }
            assert forall|i: int| 0 <= i < out.len() implies exists|a: int| 0 <= a < s.len() && s[a] == #[trigger] out[i] by {
                if i < sub.len() {
                    assert(out[i] == sub[i]);
                    let a2 = choose|a2: int| 0 <= a2 < d.len() && d[a2] == #[trigger] sub[i];
                    assert(s[a2] == d[a2]);
                } else {
                    assert(out[i] == s[s.len() - 1]);
                }
            }
        } else {
            assert(out == sub);
            assert forall|i: int| 0 <= i < out.len() implies exists|a: int| 0 <= a < s.len() && s[a] == #[trigger] out[i] by {
                let a2 = choose|a2: int| 0 <= a2 < d.len() && d[a2] == #[trigger] sub[i];
                assert(s[a2] == d[a2]);
            }
        }
    }
}

/// Discovered repositories come pinned first; among the pinned ones, and
/// among the others, folder names (ASCII case ignored) never decrease.
pub proof fn law_repos_by_folder_name(repos: Seq<String>, pinned: Seq<String>, r: Seq<String>)
    requires
        pinned_first_spec(repos, pinned, r),
    ensures
        forall|a: int, b: int|
            0 <= a < b < r.len() && string_views(pinned).contains(#[trigger] r[b]@) ==> string_views(pinned).contains(
                #[trigger] r[a]@,
            ),
        forall|a: int, b: int|
            0 <= a < b < r.len() && string_views(pinned).contains(#[trigger] r[a]@) == string_views(pinned).contains(
                #[trigger] r[b]@,
            ) ==> key_le(folder_key(r[a]@), folder_key(r[b]@)),
{
    broadcast use vstd::seq_lib::group_filter_ensures;

    let p = choose|p: Seq<usize>| {
        let sorted = p.map_values(|i: usize| repos[i as int]@);
        &&& #[trigger] crate::sort::stable_order_spec(repo_keys(repos), p)
        &&& string_views(r) == sorted.filter(|x: Seq<char>| string_views(pinned).contains(x)) + sorted.filter(
            |x: Seq<char>| !string_views(pinned).contains(x),
        )
    };
    let sorted = p.map_values(|i: usize| repos[i as int]@);
    let keys = repo_keys(repos);
    assert forall|a: int, b: int| 0 <= a < b < sorted.len() implies key_le(folder_key(#[trigger] sorted[a]), folder_key(#[trigger] sorted[b])) by {
        assert(goes_before(keys, p[a] as int, p[b] as int));
        assert(keys[p[a] as int] == folder_key(repos[p[a] as int]@));
        assert(keys[p[b] as int] == folder_key(repos[p[b] as int]@));
    }
    let pin = |x: Seq<char>| string_views(pinned).contains(x);
    let unpin = |x: Seq<char>| !string_views(pinned).contains(x);
    let fa = sorted.filter(pin);
    let fb = sorted.filter(unpin);
    lemma_filter_by_folder(sorted, pin);
    lemma_filter_by_folder(sorted, unpin);
    let v = string_views(r);
    assert(v == fa + fb);
    assert(v.len() == fa.len() + fb.len());
    assert(v.len() == r.len());
    assert forall|a: int| 0 <= a < r.len() implies #[trigger] r[a]@ == v[a] by {}
    assert forall|a: int| 0 <= a < fa.len() implies #[trigger] v[a] == fa[a] by {}
    assert forall|a: int| fa.len() <= a < v.len() implies #[trigger] v[a] == fb[a - fa.len()] by {}
    assert forall|a: int| 0 <= a < fa.len() implies string_views(pinned).contains(#[trigger] v[a]) by {
        assert(v[a] == fa[a]);
        assert(pin(fa[a]));
    }
    assert forall|a: int| fa.len() <= a < v.len() implies !string_views(pinned).contains(#[trigger] v[a]) by {
        assert(v[a] == fb[a - fa.len()]);
        assert(unpin(fb[a - fa.len()]));
    }
    assert forall|a: int, b: int|
        0 <= a < b < r.len() && string_views(pinned).contains(#[trigger] r[a]@) == string_views(pinned).contains(
            #[trigger] r[b]@,
        ) implies key_le(folder_key(r[a]@), folder_key(r[b]@)) by {
        assert(r[a]@ == v[a] && r[b]@ == v[b]);
        if b < fa.len() {
            assert(v[a] == fa[a] && v[b] == fa[b]);
            assert(key_le(folder_key(fa[a]), folder_key(fa[b])));
        } else if a >= fa.len() {
            let a2 = a - fa.len();
            let b2 = b - fa.len();
            assert(v[a] == fb[a2] && v[b] == fb[b2]);
            assert(key_le(folder_key(fb[a2]), folder_key(fb[b2])));
        } else {
            assert(string_views(pinned).contains(v[a]));
            assert(!string_views(pinned).contains(v[b]));
        }
    }
    assert forall|a: int, b: int|
        0 <= a < b < r.len() && string_views(pinned).contains(#[trigger] r[b]@) implies string_views(pinned).contains(
            #[trigger] r[a]@,
        ) by {
        assert(r[a]@ == v[a] && r[b]@ == v[b]);
        if b >= fa.len() {
            assert(!string_views(pinned).contains(v[b]));
        }
    }
}

// ---------------------------------------------------------------------------
// File states
// ---------------------------------------------------------------------------

/// A changed path is left out of the file list exactly when git reports no
/// status bit for it; conflicts come first; a staged or unstaged
/// modification with no conflict, new, deleted or renamed bit is listed as
/// modified; a new file only in the working tree is untracked.
pub proof fn law_file_states(f: StatusFlags)
    ensures
        file_status_spec(f) is None <==> !(f.conflicted || f.index_new || f.wt_new || f.index_deleted || f.wt_deleted
            || f.index_renamed || f.wt_renamed || f.index_modified || f.wt_modified),
        f.conflicted ==> file_status_spec(f) == Some(FileStatus::Conflicted),
        (f.index_modified || f.wt_modified) && !f.conflicted && !f.index_new && !f.wt_new && !f.index_deleted
            && !f.wt_deleted && !f.index_renamed && !f.wt_renamed ==> file_status_spec(f) == Some(FileStatus::Modified),
        !f.conflicted && f.wt_new && !f.index_new ==> file_status_spec(f) == Some(FileStatus::Untracked),
        !f.conflicted && f.index_new ==> file_status_spec(f) == Some(FileStatus::Added),
{
}

} // verus!
