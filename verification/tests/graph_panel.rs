use gitoto::graph::{BranchLabel, GraphRow, LaneSegment};
use gitoto::graph_view::GitGraph;
use gitoto::oid::Oid;
use gitoto::ui::{KeyCode, KeyEvent};
use gitoto::view::{collapsed_rows, matching_rows, SearchState};

fn oid(ch: char) -> Oid {
    Oid::from_hex(&ch.to_string().repeat(40)).unwrap()
}

fn oid_id(ch: char) -> String {
    oid(ch).to_hex()
}

fn graph_row(oid_str: &str, short_id: &str, parent_oids: Vec<Oid>) -> GraphRow {
    GraphRow {
        commit_col: 0,
        lanes: vec![LaneSegment::Commit],
        horizontal_spans: Vec::new(),
        oid: Oid::from_hex(oid_str).unwrap(),
        short_id: short_id.to_string(),
        message: String::new(),
        author: String::new(),
        time: 0,
        labels: Vec::new(),
        is_pushed: false,
        is_merge: parent_oids.len() > 1,
        parent_oids,
        diff_stat: None,
        collapsed: None,
    }
}

fn branch_label(name: &str) -> BranchLabel {
    BranchLabel { name: name.to_string(), is_head: false, is_remote: false, is_worktree: false, is_tag: false }
}

fn dag_row(ch: char, short_id: &str, parents: &[char], labels: Vec<BranchLabel>) -> GraphRow {
    let mut row = graph_row(&oid_id(ch), short_id, parents.iter().map(|&c| oid(c)).collect());
    row.message = format!("msg-{short_id}");
    row.author = "Author".to_string();
    row.labels = labels;
    row
}

fn mock_row(short_id: &str, message: &str, author: &str) -> GraphRow {
    let mut row = graph_row("aaaaaaaaaaaaaaaaaaaaaaaaaaaaaaaaaaaaaaaa", short_id, Vec::new());
    row.message = message.to_string();
    row.author = author.to_string();
    row
}

fn graph_with_rows(rows: Vec<GraphRow>) -> GitGraph {
    let mut graph = GitGraph::new();
    graph.set_rows(rows);
    graph
}

fn search_matches(rows: Vec<GraphRow>, query: &str) -> GitGraph {
    let mut graph = graph_with_rows(rows);
    graph.search.input = query.to_string();
    graph.update_search_matches();
    graph
}

fn make_branch_rows(tip_labels: Vec<BranchLabel>) -> Vec<GraphRow> {
    vec![
        dag_row('1', "m", &[], vec![branch_label("main")]),
        dag_row('a', "a", &['b'], tip_labels),
        dag_row('b', "b", &['1'], vec![]),
    ]
}

fn collapse_branch_rows(tip_labels: Vec<BranchLabel>, selected: usize) -> GitGraph {
    let mut graph = graph_with_rows(make_branch_rows(tip_labels));
    graph.selected = Some(selected);
    graph.toggle_collapse_selected();
    graph
}

#[test]
fn test_search_matches_message() {
    let graph = search_matches(
        vec![
            mock_row("abc1234", "fix: resolve crash", "Alice"),
            mock_row("def5678", "feat: add login", "Bob"),
            mock_row("ghi9012", "chore: update deps", "Alice"),
        ],
        "login",
    );
    assert_eq!(graph.search.matches, vec![1]);
}

#[test]
fn test_search_matches_author() {
    let graph = search_matches(
        vec![
            mock_row("abc1234", "first", "Alice"),
            mock_row("def5678", "second", "Bob"),
            mock_row("ghi9012", "third", "Alice"),
        ],
        "alice",
    );
    assert_eq!(graph.search.matches, vec![0, 2]);
}

#[test]
fn test_search_matches_short_id() {
    let graph = search_matches(
        vec![mock_row("abc1234", "first", "Alice"), mock_row("def5678", "second", "Bob")],
        "def",
    );
    assert_eq!(graph.search.matches, vec![1]);
}

#[test]
fn test_search_case_insensitive() {
    let graph = search_matches(vec![mock_row("abc1234", "Fix Bug", "Alice")], "fix bug");
    assert_eq!(graph.search.matches, vec![0]);
}

#[test]
fn test_search_next_wraps_around() {
    let mut graph = GitGraph::new();
    graph.set_rows(vec![mock_row("a", "match", "X"), mock_row("b", "no", "Y"), mock_row("c", "match", "Z")]);

    graph.search.input = "match".to_string();
    graph.update_search_matches();

    assert_eq!(graph.search.current_match, Some(0));

    graph.search_next();
    assert_eq!(graph.search.current_match, Some(1));
    assert_eq!(graph.selected, Some(2));

    graph.search_next();
    assert_eq!(graph.search.current_match, Some(0));
    assert_eq!(graph.selected, Some(0));
}

#[test]
fn test_search_prev_wraps_around() {
    let mut graph = GitGraph::new();
    graph.set_rows(vec![mock_row("a", "match", "X"), mock_row("b", "no", "Y"), mock_row("c", "match", "Z")]);

    graph.search.input = "match".to_string();
    graph.update_search_matches();

    graph.search_prev();
    assert_eq!(graph.search.current_match, Some(1));
    assert_eq!(graph.selected, Some(2));
}

#[test]
fn test_search_empty_input_no_matches() {
    let mut graph = graph_with_rows(vec![mock_row("a", "hello", "X")]);
    graph.search.input.clear();
    graph.update_search_matches();
    assert!(graph.search.matches.is_empty());
    assert_eq!(graph.search.current_match, None);
}

#[test]
fn test_search_no_results() {
    let graph = search_matches(vec![mock_row("a", "hello", "Alice")], "zzzzz");
    assert!(graph.search.matches.is_empty());
    assert_eq!(graph.search.current_match, None);
}

#[test]
fn test_collapse_labeled_branch() {
    let graph = collapse_branch_rows(vec![branch_label("feature")], 1);
    assert!(graph.collapsed_branches.contains(&oid_id('a')));
    assert_eq!(graph.rows.len(), 2);
    let (_, count) = graph.rows[1].collapsed.as_ref().unwrap();
    assert_eq!(*count, 2);
    assert!(graph.rows[1].message.contains("feature"));
}

#[test]
fn test_collapse_unlabeled_merge_lane() {
    let graph = collapse_branch_rows(vec![], 2);
    assert!(graph.collapsed_branches.contains(&oid_id('a')));
    assert_eq!(graph.rows.len(), 2);
    assert!(graph.rows[1].message.contains("a"));
}

#[test]
fn test_expand_collapsed_group() {
    let mut graph = GitGraph::new();
    graph.set_rows(make_branch_rows(vec![branch_label("feature")]));
    graph.selected = Some(1);
    graph.toggle_collapse_selected();
    assert_eq!(graph.rows.len(), 2);

    graph.selected = Some(1);
    graph.toggle_collapse_selected();

    assert!(graph.collapsed_branches.is_empty());
    assert_eq!(graph.display_rows().len(), 3);
}

#[test]
fn test_collapse_from_middle_of_branch() {
    let graph = collapse_branch_rows(vec![branch_label("feature")], 2);
    assert!(graph.collapsed_branches.contains(&oid_id('a')));
    assert_eq!(graph.rows.len(), 2);
    assert!(graph.rows[1].collapsed.is_some());
}

#[test]
fn test_expand_all() {
    let mut graph = GitGraph::new();
    graph.set_rows(make_branch_rows(vec![branch_label("feat-a")]));
    graph.selected = Some(1);
    graph.toggle_collapse_selected();
    assert!(!graph.collapsed_branches.is_empty());

    graph.expand_all_branches();
    assert!(graph.collapsed_branches.is_empty());
    assert_eq!(graph.display_rows().len(), 3);
}

#[test]
fn test_main_trunk_not_collapsible() {
    let graph = collapse_branch_rows(vec![], 0);
    assert!(graph.collapsed_branches.is_empty());
    assert_eq!(graph.display_rows().len(), 3);
}

#[test]
fn test_interleaved_commits_collapse_together() {
    let mut graph = GitGraph::new();
    graph.set_rows(vec![
        dag_row('1', "m0", &['c'], vec![branch_label("main")]),
        dag_row('a', "a", &['b'], vec![]),
        dag_row('c', "c", &[], vec![]),
        dag_row('b', "b", &['1'], vec![]),
    ]);

    graph.selected = Some(1);
    graph.toggle_collapse_selected();

    assert!(graph.collapsed_branches.contains(&oid_id('a')));
    assert_eq!(graph.rows.len(), 3);
    let (_, count) = graph.rows[1].collapsed.as_ref().unwrap();
    assert_eq!(*count, 2);
}

#[test]
fn test_unlabeled_branch_collapsible() {
    let graph = collapse_branch_rows(vec![], 1);
    assert!(!graph.collapsed_branches.is_empty());
    let placeholder = &graph.rows[1];
    assert!(placeholder.collapsed.is_some());
    assert!(placeholder.message.contains("a"));
}

#[test]
fn placeholder_text_names_segment_and_count() {
    let graph = collapse_branch_rows(vec![branch_label("feature")], 1);
    assert_eq!(graph.rows[1].message, "\u{25b6} feature (2 commits)");
    assert_eq!(graph.rows[1].short_id, "");
    assert_eq!(graph.rows[1].author, "");
    assert!(graph.rows[1].labels.is_empty());
}

#[test]
fn collapsed_rows_without_folded_segments_is_identity() {
    let rows = make_branch_rows(vec![]);
    let segs = gitoto::segments::compute_branch_segments(&rows);
    let out = collapsed_rows(&rows, &segs, &Vec::new());
    assert_eq!(out.len(), 3);
    assert_eq!(out[1].message, "msg-a");
}

#[test]
fn matching_rows_empty_query_matches_nothing() {
    let rows = vec![mock_row("a", "hello", "X")];
    assert!(matching_rows("", &rows).is_empty());
    assert_eq!(matching_rows("HELLO", &rows), vec![0]);
}

#[test]
fn search_state_prev_from_start_wraps_to_last() {
    let mut s = SearchState::new();
    s.set_matches(vec![4, 7, 9]);
    assert_eq!(s.prev_match(), Some(9));
    assert_eq!(s.current_match, Some(2));
    assert_eq!(s.next_match(), Some(4));
}

#[test]
fn search_keys_edit_query_and_jump() {
    let mut graph = graph_with_rows(vec![mock_row("a", "alpha", "X"), mock_row("b", "beta", "Y")]);
    graph.search.open();
    let key = |c| KeyEvent { code: KeyCode::Char(c), ctrl: false, alt: false, shift: false };
    graph.handle_search_key(key('b'));
    graph.handle_search_key(key('e'));
    assert_eq!(graph.search.input, "be");
    assert_eq!(graph.search.matches, vec![1]);
    graph.handle_search_key(KeyEvent { code: KeyCode::Backspace, ctrl: false, alt: false, shift: false });
    assert_eq!(graph.search.input, "b");
    graph.handle_search_key(KeyEvent { code: KeyCode::Enter, ctrl: false, alt: false, shift: false });
    assert!(!graph.search.visible);
    assert_eq!(graph.selected, Some(1));
}

#[test]
fn set_rows_keeps_selection_clamped() {
    let mut graph = graph_with_rows(vec![mock_row("a", "1", "X"), mock_row("b", "2", "X"), mock_row("c", "3", "X")]);
    graph.selected = Some(2);
    graph.set_rows(vec![mock_row("a", "1", "X")]);
    assert_eq!(graph.selected, Some(0));
    graph.set_rows(Vec::new());
    assert_eq!(graph.selected, None);
}

#[test]
fn diff_stats_survive_a_reload() {
    let mut graph = graph_with_rows(vec![dag_row('1', "m", &[], vec![])]);
    graph.set_diff_stats(vec![(oid('1'), gitoto::graph::DiffStat { additions: 2, deletions: 1 })]);
    assert_eq!(graph.all_rows[0].diff_stat.unwrap().additions, 2);
    graph.set_rows(vec![dag_row('1', "m", &[], vec![])]);
    assert_eq!(graph.all_rows[0].diff_stat.unwrap().deletions, 1);
}

#[test]
fn selected_text_is_short_id_and_message() {
    let mut graph = graph_with_rows(vec![mock_row("abc1234", "fix it", "X")]);
    assert_eq!(graph.selected_text().as_deref(), Some("abc1234 fix it"));
    graph.set_commit_files("x".to_string(), "m".to_string(), vec![("M".to_string(), "src/a.rs".to_string())]);
    assert_eq!(graph.selected_text().as_deref(), Some("src/a.rs"));
}

#[test]
fn search_prev_undoes_next_at_every_match() {
    let mut s = SearchState::new();
    s.set_matches(vec![4, 7, 9]);
    for start in 0..3 {
        s.current_match = Some(start);
        s.next_match();
        s.prev_match();
        assert_eq!(s.current_match, Some(start));
        s.prev_match();
        s.next_match();
        assert_eq!(s.current_match, Some(start));
    }
}

#[test]
fn trunk_row_does_not_fold() {
    let graph = collapse_branch_rows(vec![branch_label("feature")], 0);
    assert!(graph.collapsed_branches.is_empty());
    assert_eq!(graph.display_rows().len(), 3);
}
