use gitoto::graph::{lane_color, BranchLabel, GraphRow, LaneSegment};
use gitoto::oid::Oid;
use gitoto::render::{
    author_color, format_relative_time, format_relative_time_at, h_scroll_line, render_branch_labels,
    render_commit_row_at, render_graph_prefix, truncate_line, Color, Style, StyledSpan,
};
use std::time::{SystemTime, UNIX_EPOCH};

fn raw(s: &str) -> StyledSpan {
    StyledSpan {
        content: s.to_string(),
        style: Style { fg: None, bg: None, bold: false, italic: false },
    }
}

fn text(spans: &[StyledSpan]) -> String {
    spans.iter().map(|s| s.content.as_str()).collect()
}

fn label(name: &str, is_head: bool, is_remote: bool, is_worktree: bool) -> BranchLabel {
    BranchLabel { name: name.to_string(), is_head, is_remote, is_worktree, is_tag: false }
}

fn graph_row(oid_str: &str, short_id: &str, parent_oids: Vec<Oid>) -> GraphRow {
    GraphRow {
        commit_col: 0,
        lanes: vec![LaneSegment::Commit],
        horizontal_spans: Vec::new(),
        oid: Oid::from_hex(oid_str).unwrap(),
        short_id: short_id.to_string(),
        message: String::new(),
        author: String::new(),
        time: 0,
        labels: Vec::new(),
        is_pushed: false,
        is_merge: parent_oids.len() > 1,
        parent_oids,
        diff_stat: None,
        collapsed: None,
    }
}

#[test]
fn test_truncate_line_no_op_when_fits() {
    let mut spans = vec![raw("abc"), raw("def")];
    truncate_line(&mut spans, 10);
    assert_eq!(text(&spans), "abcdef");
}

#[test]
fn test_truncate_line_adds_ellipsis() {
    let mut spans = vec![raw("hello "), raw("world this is long")];
    truncate_line(&mut spans, 10);
    assert_eq!(text(&spans), "hello wo..");
}

#[test]
fn test_truncate_line_cuts_at_span_boundary() {
    let mut spans = vec![raw("12345"), raw("67890")];
    truncate_line(&mut spans, 5);
    assert_eq!(text(&spans), "123..");
}

#[test]
fn test_truncate_line_zero_width() {
    let mut spans = vec![raw("hello")];
    truncate_line(&mut spans, 0);
    assert!(spans.is_empty());
}

#[test]
fn test_empty_labels_returns_empty() {
    let spans = render_branch_labels(&Vec::new(), 24);
    assert!(spans.is_empty());
}

#[test]
fn test_label_truncation_multibyte_no_panic() {
    let labels = vec![label("origin/功能分支名称很长的多字节测试超过上限", false, true, false)];
    let spans = render_branch_labels(&labels, 24);
    let t = text(&spans);
    assert!(t.contains('\u{2026}'), "got: {t}");
}

#[test]
fn test_head_label_has_star_prefix() {
    let labels = vec![label("main", true, false, false)];
    let spans = render_branch_labels(&labels, 24);
    let t = text(&spans);
    assert!(t.contains("* main"), "got: {t}");
}

#[test]
fn test_truncation_adds_ellipsis() {
    let labels = vec![label("very-long-branch-name-here", false, false, false)];
    let spans = render_branch_labels(&labels, 10);
    let t = text(&spans);
    assert!(t.contains("very-long-\u{2026}"), "got: {t}");
    assert!(!t.contains("very-long-branch-name-here"));
}

#[test]
fn test_worktree_label_has_house_prefix() {
    let labels = vec![label("feature", false, false, true)];
    let spans = render_branch_labels(&labels, 24);
    let t = text(&spans);
    assert!(t.contains("\u{2302} feature"), "got: {t}");
}

#[test]
fn test_multiple_labels_comma_separated() {
    let labels = vec![label("main", true, false, false), label("origin/main", false, true, false)];
    let spans = render_branch_labels(&labels, 24);
    let t = text(&spans);
    assert!(t.contains(", "), "got: {t}");
    assert!(t.starts_with('('));
    assert!(t.contains(')'));
}

#[test]
fn test_relative_time_formats() {
    let now = SystemTime::now().duration_since(UNIX_EPOCH).unwrap().as_secs() as i64;
    for (offset, expected) in [
        (30, "30s ago"),
        (7200, "2h ago"),
        (259_200, "3d ago"),
        (1_209_600, "2w ago"),
        (12_960_000, "5mo ago"),
        (63_072_000, "2y ago"),
        (-1000, "0s ago"),
    ] {
        assert_eq!(format_relative_time(now - offset), expected);
    }
}

#[test]
fn test_truncate_line_unicode_chars() {
    let mut spans = vec![raw("│ ● "), raw("hello world")];
    truncate_line(&mut spans, 8);
    assert_eq!(text(&spans), "│ ● he..");
}

#[test]
fn test_render_graph_prefix_horizontal_dash_between_spans() {
    let mut row = graph_row("aaaaaaaaaaaaaaaaaaaaaaaaaaaaaaaaaaaaaaaa", "", Vec::new());
    row.lanes = vec![LaneSegment::RightTee, LaneSegment::CrossHorizontal, LaneSegment::MergeLeft];
    row.horizontal_spans = vec![(0, 2, lane_color(2))];

    let spans = render_graph_prefix(&row);
    assert_eq!(text(&spans), "├─┼─╯ ");
}

#[test]
fn test_commit_dot_red_when_unpushed() {
    let row = graph_row("aaaaaaaaaaaaaaaaaaaaaaaaaaaaaaaaaaaaaaaa", "", Vec::new());
    let spans = render_graph_prefix(&row);
    assert_eq!(spans[0].content.as_str(), "●");
    assert_eq!(spans[0].style.fg, Some(Color::Red));
}

#[test]
fn test_commit_dot_green_when_pushed() {
    let mut row = graph_row("aaaaaaaaaaaaaaaaaaaaaaaaaaaaaaaaaaaaaaaa", "", Vec::new());
    row.is_pushed = true;
    let spans = render_graph_prefix(&row);
    assert_eq!(spans[0].content.as_str(), "●");
    assert_eq!(spans[0].style.fg, Some(Color::Green));
}

#[test]
fn test_author_color_deterministic() {
    let c1 = author_color("Alice");
    let c2 = author_color("Alice");
    assert_eq!(c1, c2);
    let c3 = author_color("Bob");
    assert_ne!(c1, c3);
}

#[test]
fn test_tag_label_renders_yellow() {
    let labels = vec![BranchLabel {
        name: "v1.0.0".to_string(),
        is_head: false,
        is_remote: false,
        is_worktree: false,
        is_tag: true,
    }];
    let spans = render_branch_labels(&labels, 24);
    let t = text(&spans);
    assert!(t.contains("v1.0.0"), "got: {t}");
    let tag_span = spans.iter().find(|s| s.content.as_str() == "v1.0.0").unwrap();
    assert_eq!(tag_span.style.fg, Some(Color::LightYellow));
}

#[test]
fn test_h_scroll_zero_offset_same_as_truncate() {
    let mut a = vec![raw("hello "), raw("world this is long")];
    let mut b = vec![raw("hello "), raw("world this is long")];
    h_scroll_line(&mut a, 0, 10);
    truncate_line(&mut b, 10);
    assert_eq!(text(&a), text(&b));
}

#[test]
fn test_h_scroll_skips_characters() {
    let mut spans = vec![raw("abcdef"), raw("ghij")];
    h_scroll_line(&mut spans, 3, 20);
    assert_eq!(text(&spans), "defghij");
}

#[test]
fn test_h_scroll_skips_full_span() {
    let mut spans = vec![raw("abc"), raw("def"), raw("ghi")];
    h_scroll_line(&mut spans, 4, 20);
    assert_eq!(text(&spans), "efghi");
}

#[test]
fn test_h_scroll_then_truncate() {
    let mut spans = vec![raw("abcdef"), raw("ghijklmnop")];
    h_scroll_line(&mut spans, 3, 5);
    assert_eq!(text(&spans), "def..");
}

#[test]
fn test_h_scroll_beyond_content_yields_empty() {
    let mut spans = vec![raw("abc")];
    h_scroll_line(&mut spans, 10, 20);
    assert!(spans.is_empty());
}

#[test]
fn relative_time_units_at_fixed_now() {
    let now = 1_000_000_000;
    assert_eq!(format_relative_time_at(now, now - 59), "59s ago");
    assert_eq!(format_relative_time_at(now, now - 60), "1m ago");
    assert_eq!(format_relative_time_at(now, now - 3599), "59m ago");
    assert_eq!(format_relative_time_at(now, now - 86_399), "23h ago");
    assert_eq!(format_relative_time_at(now, now - 604_799), "6d ago");
    assert_eq!(format_relative_time_at(now, now - 2_591_999), "4w ago");
    assert_eq!(format_relative_time_at(now, now - 31_535_999), "12mo ago");
    assert_eq!(format_relative_time_at(now, now + 5), "0s ago");
    assert_eq!(format_relative_time_at(i64::MAX, i64::MIN), "584942417355y ago");
}

#[test]
fn truncate_with_one_cell_left_gives_a_dot() {
    let mut spans = vec![raw("abcd"), raw("xyz")];
    truncate_line(&mut spans, 5);
    assert_eq!(text(&spans), "abcd.");
}

#[test]
fn truncate_keeps_styles_of_kept_spans() {
    let red = Style { fg: Some(Color::Red), bg: None, bold: false, italic: false };
    let mut spans = vec![StyledSpan { content: "abcdef".to_string(), style: red }, raw("gh")];
    truncate_line(&mut spans, 4);
    assert_eq!(spans.len(), 1);
    assert_eq!(spans[0].content, "ab..");
    assert_eq!(spans[0].style, red);
}

#[test]
fn commit_row_shows_summary_and_stats() {
    let mut row = graph_row("aaaaaaaaaaaaaaaaaaaaaaaaaaaaaaaaaaaaaaaa", "aaaaaaa", Vec::new());
    row.message = "fix".to_string();
    row.author = "Ann".to_string();
    row.time = 940;
    row.diff_stat = Some(gitoto::graph::DiffStat { additions: 3, deletions: 0 });
    let spans = render_commit_row_at(&row, 24, false, 1000);
    assert_eq!(text(&spans), "● aaaaaaa fix  — Ann 1m ago +3");
    let dimmed = render_commit_row_at(&row, 24, true, 1000);
    assert_eq!(text(&dimmed), "● aaaaaaa fix  — Ann 1m ago");
    assert!(dimmed.iter().all(|s| s.style.fg == Some(Color::DarkGray)));
}

#[test]
fn collapsed_placeholder_row_is_grey_italic() {
    let mut row = graph_row("aaaaaaaaaaaaaaaaaaaaaaaaaaaaaaaaaaaaaaaa", "", Vec::new());
    row.message = "▶ feature (2 commits)".to_string();
    row.collapsed = Some(("x".to_string(), 2));
    let spans = render_commit_row_at(&row, 24, false, 0);
    let last = spans.last().unwrap();
    assert_eq!(last.content, "▶ feature (2 commits)");
    assert!(last.style.italic);
    assert_eq!(last.style.fg, Some(Color::Rgb(130, 130, 130)));
    assert_eq!(spans[0].style.fg, Some(Color::DarkGray));
}

#[test]
fn truncate_counts_screen_columns_of_wide_chars() {
    let mut spans = vec![raw("漢字漢字")];
    truncate_line(&mut spans, 5);
    assert_eq!(text(&spans), "漢..");
}

#[test]
fn truncate_leaves_wide_text_that_fits() {
    let mut spans = vec![raw("漢字")];
    truncate_line(&mut spans, 4);
    assert_eq!(text(&spans), "漢字");
}

#[test]
fn truncate_drops_wide_chars_that_cross_the_limit() {
    let mut spans = vec![raw("ab"), raw("漢字")];
    truncate_line(&mut spans, 4);
    assert_eq!(text(&spans), "ab..");
}
