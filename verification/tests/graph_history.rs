use gitoto::config::BranchFilter;
use gitoto::graph::{CommitInfo, GraphBuilder, GraphRow, LaneSegment, RefLabels};
use gitoto::oid::Oid;
use gitoto::refs::resolve_labels;

fn oid(c: char) -> Oid {
    Oid::from_hex(&c.to_string().repeat(40)).unwrap()
}

/// A history, newest first as the commit walk gives it: each commit by its
/// id character and its parents' id characters.
fn commits(history: &[(char, &[char])]) -> Vec<CommitInfo> {
    history
        .iter()
        .enumerate()
        .map(|(i, (id, parents))| CommitInfo {
            oid: oid(*id),
            parent_oids: parents.iter().map(|p| oid(*p)).collect(),
            message: format!("commit {i}"),
            author: "Test".to_string(),
            time: 1_700_000_000 - i as i64,
        })
        .collect()
}

/// Labels of a repository whose HEAD is branch `master` at `head`, with
/// lightweight `tags`.
fn labels(head: char, tags: &[(&str, char)], filter: BranchFilter) -> Vec<RefLabels> {
    let local = vec![("master".to_string(), oid(head))];
    let tag_refs: Vec<(String, Oid)> = tags.iter().map(|(name, c)| (name.to_string(), oid(*c))).collect();
    resolve_labels(&local, &Vec::new(), &tag_refs, &Some(oid(head)), &Some("master".to_string()), &Vec::new(), filter)
}

fn build(history: &[(char, &[char])], refs: Vec<RefLabels>) -> Vec<GraphRow> {
    GraphBuilder::new().build(commits(history), refs, &Vec::new())
}

/// root `a`, two children `b` and `c`, and their merge `d` (first parent `b`).
const MERGE: &[(char, &[char])] = &[('d', &['b', 'c']), ('c', &['a']), ('b', &['a']), ('a', &[])];

#[test]
fn test_linear_history_single_lane() {
    let rows = build(&[('b', &['a']), ('a', &[])], labels('b', &[], BranchFilter::All));
    assert_eq!(rows.len(), 2);
    for row in &rows {
        assert_eq!(row.commit_col, 0);
    }
}

#[test]
fn test_merge_creates_two_lanes() {
    let rows = build(MERGE, Vec::new());
    assert!(rows.len() >= 3);
    assert!(!rows[0].lanes.is_empty());
}

#[test]
fn test_root_commit_closes_lane() {
    let rows = build(&[('a', &[])], labels('a', &[], BranchFilter::All));
    assert_eq!(rows.len(), 1);
    assert_eq!(rows[0].commit_col, 0);
    assert_eq!(rows[0].lanes[0], LaneSegment::Commit);
}

#[test]
fn test_multiple_branches_assign_different_columns() {
    let rows = build(MERGE, Vec::new());
    assert!(rows[0].lanes.len() >= 2, "Expected >= 2 lanes at merge, got {}", rows[0].lanes.len());
}

#[test]
fn test_graph_rows_carry_labels() {
    let rows = build(&[('b', &['a']), ('a', &[])], labels('b', &[], BranchFilter::All));
    assert!(!rows[0].labels.is_empty(), "tip commit should have at least one branch label");
}

#[test]
fn test_head_marked() {
    let rows = build(&[('a', &[])], labels('a', &[], BranchFilter::All));
    let head_labels: Vec<_> = rows[0].labels.iter().filter(|l| l.is_head).collect();
    assert_eq!(head_labels.len(), 1, "exactly one label should be HEAD");
}

#[test]
fn test_merge_is_merge_true() {
    let rows = build(MERGE, Vec::new());
    assert!(rows[0].is_merge, "first row should be a merge commit");
    assert!(!rows[1].is_merge, "non-merge commit should have is_merge=false");
}

#[test]
fn test_tag_labels_appear_on_tagged_commit() {
    let rows = build(&[('a', &[])], labels('a', &[("v1.0.0", 'a')], BranchFilter::All));
    let tagged_row = rows.iter().find(|r| r.oid.same(&oid('a'))).unwrap();
    let tag_labels: Vec<_> = tagged_row.labels.iter().filter(|l| l.is_tag).collect();
    assert_eq!(tag_labels.len(), 1);
    assert_eq!(tag_labels[0].name, "v1.0.0");
}

#[test]
fn test_tags_sort_after_branches() {
    let rows = build(&[('a', &[])], labels('a', &[("v0.1", 'a')], BranchFilter::All));
    let row = &rows[0];
    assert!(row.labels.len() >= 2);
    let branch_idx = row.labels.iter().position(|l| !l.is_tag).unwrap();
    let tag_idx = row.labels.iter().position(|l| l.is_tag).unwrap();
    assert!(branch_idx < tag_idx, "branch ({branch_idx}) should sort before tag ({tag_idx})");
}

#[test]
fn test_filter_none_yields_no_labels() {
    let rows = build(&[('a', &[])], labels('a', &[], BranchFilter::Off));
    for row in &rows {
        assert!(row.labels.is_empty(), "filter=None should produce no labels");
    }
}

#[test]
fn merge_forks_and_the_first_parent_line_joins_the_fork() {
    let rows = build(MERGE, Vec::new());
    assert_eq!(rows.len(), 4);
    assert_eq!(rows[0].commit_col, 0);
    assert_eq!(rows[1].commit_col, 1);
    assert_eq!(rows[2].commit_col, 0);
    assert_eq!(rows[2].lanes[0], LaneSegment::MergeRight);
    assert_eq!(rows[3].commit_col, 1);
    assert_eq!(rows[0].parent_oids.len(), 2);
}
