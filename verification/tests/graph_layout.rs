use gitoto::graph::{lane_color, GraphBuilder, GraphRow, LaneSegment};
use gitoto::oid::Oid;
use gitoto::segments::compute_branch_segments;

fn hex(s: &str) -> Oid {
    Oid::from_hex(s).unwrap()
}

fn mock_segment_row(oid_str: &str, short_id: &str, parent_oids: Vec<Oid>) -> GraphRow {
    GraphRow {
        commit_col: 0,
        lanes: vec![LaneSegment::Commit],
        horizontal_spans: Vec::new(),
        oid: hex(oid_str),
        short_id: short_id.to_string(),
        message: String::new(),
        author: String::new(),
        time: 0,
        labels: Vec::new(),
        is_pushed: false,
        is_merge: false,
        parent_oids,
        diff_stat: None,
        collapsed: None,
    }
}

#[test]
fn test_merge_left_horizontal_fill() {
    let mut builder = GraphBuilder::new();
    let oid_target = hex("aaaaaaaaaaaaaaaaaaaaaaaaaaaaaaaaaaaaaaaa");
    let oid_b = hex("bbbbbbbbbbbbbbbbbbbbbbbbbbbbbbbbbbbbbbbb");
    let oid_c = hex("cccccccccccccccccccccccccccccccccccccccc");
    let oid_commit = hex("dddddddddddddddddddddddddddddddddddddd");

    builder.active_lanes = vec![
        Some(oid_target.clone()),
        Some(oid_b),
        Some(oid_c),
        Some(oid_commit.clone()),
    ];

    let (col, lanes, spans) = builder.process_commit(&oid_commit, &vec![oid_target]);

    assert_eq!(col, 3);
    assert_eq!(lanes[0], LaneSegment::RightTee);
    assert_eq!(lanes[1], LaneSegment::CrossHorizontal);
    assert_eq!(lanes[2], LaneSegment::CrossHorizontal);
    assert_eq!(lanes[3], LaneSegment::MergeLeft);
    assert_eq!(spans.len(), 1);
    assert_eq!(spans[0], (0, 3, lane_color(3)));
}

#[test]
fn test_fork_right_horizontal_fill() {
    let mut builder = GraphBuilder::new();
    let oid_commit = hex("aaaaaaaaaaaaaaaaaaaaaaaaaaaaaaaaaaaaaaaa");
    let oid_active = hex("bbbbbbbbbbbbbbbbbbbbbbbbbbbbbbbbbbbbbbbb");
    let oid_parent1 = hex("cccccccccccccccccccccccccccccccccccccccc");
    let oid_parent2 = hex("dddddddddddddddddddddddddddddddddddddd");

    builder.active_lanes = vec![Some(oid_commit.clone()), Some(oid_active), None];

    let (col, lanes, spans) = builder.process_commit(&oid_commit, &vec![oid_parent1, oid_parent2]);

    assert_eq!(col, 0);
    assert_eq!(lanes[0], LaneSegment::Commit);
    assert_eq!(lanes[1], LaneSegment::CrossHorizontal);
    assert_eq!(lanes[2], LaneSegment::ForkRight);
    assert_eq!(spans.len(), 1);
    assert_eq!(spans[0], (0, 2, lane_color(2)));
}

#[test]
fn test_adjacent_merge_no_intermediate() {
    let mut builder = GraphBuilder::new();
    let oid_target = hex("aaaaaaaaaaaaaaaaaaaaaaaaaaaaaaaaaaaaaaaa");
    let oid_commit = hex("bbbbbbbbbbbbbbbbbbbbbbbbbbbbbbbbbbbbbbbb");

    builder.active_lanes = vec![Some(oid_target.clone()), Some(oid_commit.clone())];

    let (col, lanes, spans) = builder.process_commit(&oid_commit, &vec![oid_target]);

    assert_eq!(col, 1);
    assert_eq!(lanes[0], LaneSegment::RightTee);
    assert_eq!(lanes[1], LaneSegment::MergeLeft);
    assert_eq!(spans.len(), 1);
    assert_eq!(spans[0], (0, 1, lane_color(1)));
}

#[test]
fn test_merge_right_horizontal_fill() {
    let mut builder = GraphBuilder::new();
    let oid_commit = hex("aaaaaaaaaaaaaaaaaaaaaaaaaaaaaaaaaaaaaaaa");
    let oid_b = hex("bbbbbbbbbbbbbbbbbbbbbbbbbbbbbbbbbbbbbbbb");
    let oid_target = hex("cccccccccccccccccccccccccccccccccccccccc");

    builder.active_lanes = vec![Some(oid_commit.clone()), Some(oid_b), Some(oid_target.clone())];

    let (col, lanes, spans) = builder.process_commit(&oid_commit, &vec![oid_target]);

    assert_eq!(col, 0);
    assert_eq!(lanes[0], LaneSegment::MergeRight);
    assert_eq!(lanes[1], LaneSegment::CrossHorizontal);
    assert_eq!(lanes[2], LaneSegment::LeftTee);
    assert_eq!(spans.len(), 1);
    assert_eq!(spans[0], (0, 2, lane_color(0)));
}

#[test]
fn test_segments_linear_history_no_segments() {
    let oid_b = hex("bbbbbbbbbbbbbbbbbbbbbbbbbbbbbbbbbbbbbbbb");
    let oid_c = hex("cccccccccccccccccccccccccccccccccccccccc");

    let rows = vec![
        mock_segment_row("aaaaaaaaaaaaaaaaaaaaaaaaaaaaaaaaaaaaaaaa", "aaa", vec![oid_b]),
        mock_segment_row("bbbbbbbbbbbbbbbbbbbbbbbbbbbbbbbbbbbbbbbb", "bbb", vec![oid_c]),
        mock_segment_row("cccccccccccccccccccccccccccccccccccccccc", "ccc", vec![]),
    ];

    let segments = compute_branch_segments(&rows);
    assert!(segments.is_empty(), "linear history should have no segments");
}

#[test]
fn test_segments_simple_branch_and_merge() {
    let oid_a = hex("aaaaaaaaaaaaaaaaaaaaaaaaaaaaaaaaaaaaaaaa");
    let oid_e = hex("eeeeeeeeeeeeeeeeeeeeeeeeeeeeeeeeeeeeeeee");
    let oid_f = hex("ffffffffffffffffffffffffffffffffffffffff");

    let rows = vec![
        mock_segment_row("1111111111111111111111111111111111111111", "merge", vec![oid_a, oid_e.clone()]),
        mock_segment_row("aaaaaaaaaaaaaaaaaaaaaaaaaaaaaaaaaaaaaaaa", "aaa", vec![oid_f.clone()]),
        mock_segment_row("eeeeeeeeeeeeeeeeeeeeeeeeeeeeeeeeeeeeeeee", "eee", vec![oid_f]),
        mock_segment_row("ffffffffffffffffffffffffffffffffffffffff", "fff", vec![]),
    ];

    let segments = compute_branch_segments(&rows);
    assert_eq!(segments.len(), 1, "one side branch expected");
    assert_eq!(segments[0].row_indices, vec![2]);
    assert_eq!(segments[0].id, oid_e.to_hex());
}

#[test]
fn test_segments_two_independent_branches() {
    let oid_a = hex("aaaaaaaaaaaaaaaaaaaaaaaaaaaaaaaaaaaaaaaa");
    let oid_d = hex("dddddddddddddddddddddddddddddddddddddddd");
    let oid_e = hex("eeeeeeeeeeeeeeeeeeeeeeeeeeeeeeeeeeeeeeee");
    let oid_f = hex("ffffffffffffffffffffffffffffffffffffffff");

    let rows = vec![
        mock_segment_row("1111111111111111111111111111111111111111", "merge", vec![oid_a, oid_d, oid_e]),
        mock_segment_row("aaaaaaaaaaaaaaaaaaaaaaaaaaaaaaaaaaaaaaaa", "aaa", vec![oid_f.clone()]),
        mock_segment_row("dddddddddddddddddddddddddddddddddddddddd", "ddd", vec![oid_f.clone()]),
        mock_segment_row("eeeeeeeeeeeeeeeeeeeeeeeeeeeeeeeeeeeeeeee", "eee", vec![oid_f]),
        mock_segment_row("ffffffffffffffffffffffffffffffffffffffff", "fff", vec![]),
    ];

    let segments = compute_branch_segments(&rows);
    assert_eq!(segments.len(), 2, "two side branches expected");
    assert_eq!(segments[0].row_indices, vec![2]);
    assert_eq!(segments[1].row_indices, vec![3]);
}

#[test]
fn test_segments_multi_commit_branch() {
    let oid_a = hex("aaaaaaaaaaaaaaaaaaaaaaaaaaaaaaaaaaaaaaaa");
    let oid_d = hex("dddddddddddddddddddddddddddddddddddddddd");
    let oid_e = hex("eeeeeeeeeeeeeeeeeeeeeeeeeeeeeeeeeeeeeeee");
    let oid_f = hex("ffffffffffffffffffffffffffffffffffffffff");

    let rows = vec![
        mock_segment_row("1111111111111111111111111111111111111111", "merge", vec![oid_a, oid_d.clone()]),
        mock_segment_row("aaaaaaaaaaaaaaaaaaaaaaaaaaaaaaaaaaaaaaaa", "aaa", vec![oid_f.clone()]),
        mock_segment_row("dddddddddddddddddddddddddddddddddddddddd", "tip", vec![oid_e]),
        mock_segment_row("eeeeeeeeeeeeeeeeeeeeeeeeeeeeeeeeeeeeeeee", "mid", vec![oid_f]),
        mock_segment_row("ffffffffffffffffffffffffffffffffffffffff", "fff", vec![]),
    ];

    let segments = compute_branch_segments(&rows);
    assert_eq!(segments.len(), 1);
    assert_eq!(segments[0].row_indices, vec![2, 3]);
    assert_eq!(segments[0].id, oid_d.to_hex());
}

#[test]
fn segment_display_name_prefers_branch_label_over_short_id() {
    let oid_a = hex("aaaaaaaaaaaaaaaaaaaaaaaaaaaaaaaaaaaaaaaa");
    let oid_e = hex("eeeeeeeeeeeeeeeeeeeeeeeeeeeeeeeeeeeeeeee");
    let oid_f = hex("ffffffffffffffffffffffffffffffffffffffff");
    let mut side = mock_segment_row("eeeeeeeeeeeeeeeeeeeeeeeeeeeeeeeeeeeeeeee", "eee", vec![oid_f.clone()]);
    side.labels = vec![
        gitoto::graph::BranchLabel {
            name: "v1".to_string(),
            is_head: false,
            is_remote: false,
            is_worktree: false,
            is_tag: true,
        },
        gitoto::graph::BranchLabel {
            name: "feature".to_string(),
            is_head: false,
            is_remote: false,
            is_worktree: false,
            is_tag: false,
        },
    ];
    let rows = vec![
        mock_segment_row("1111111111111111111111111111111111111111", "merge", vec![oid_a, oid_e]),
        mock_segment_row("aaaaaaaaaaaaaaaaaaaaaaaaaaaaaaaaaaaaaaaa", "aaa", vec![oid_f]),
        side,
        mock_segment_row("ffffffffffffffffffffffffffffffffffffffff", "fff", vec![]),
    ];
    let segments = compute_branch_segments(&rows);
    assert_eq!(segments.len(), 1);
    assert_eq!(segments[0].display_name, "feature");
}

#[test]
fn short_hex_oid_is_zero_padded() {
    let o = hex("dddddddddddddddddddddddddddddddddddddd");
    assert_eq!(o.to_hex(), "dddddddddddddddddddddddddddddddddddddd00");
    assert_eq!(o.short_hex(), "ddddddd");
    assert!(Oid::from_hex("xyz").is_none());
    assert!(Oid::from_hex("").is_none());
}

#[test]
fn new_commit_takes_first_free_lane() {
    let mut builder = GraphBuilder::new();
    builder.active_lanes = vec![Some(hex("aa")), None, Some(hex("bb"))];
    let c = hex("cc");
    let (col, lanes, _) = builder.process_commit(&c, &vec![hex("dd")]);
    assert_eq!(col, 1);
    assert_eq!(lanes[1], LaneSegment::Commit);
    assert!(builder.active_lanes[1].as_ref().unwrap().same(&hex("dd")));
}
