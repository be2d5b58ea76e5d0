use gitoto::config::RepoNameFormat;
use gitoto::dialogs::StatusBar;
use gitoto::file_list::FileList;
use gitoto::render::{Color, StyledSpan};
use gitoto::repo::{RepoId, RepoList};
use gitoto::rows::{commit_file_row, file_row, pad_right, repo_row, worktree_row};
use gitoto::status::{FileEntry, FileStatus, RepoStatus, SubmoduleState, WorktreeEntry};
use gitoto::ui::FocusPanel;
use std::time::Instant;

fn texts(spans: &[StyledSpan]) -> Vec<String> {
    spans.iter().map(|s| s.content.clone()).collect()
}

fn status(branch: &str) -> RepoStatus {
    RepoStatus {
        branch: branch.to_string(),
        files: Vec::new(),
        ahead: 0,
        behind: 0,
        has_upstream: true,
        is_dirty: false,
        worktree_info: Vec::new(),
        has_submodules: false,
        submodules: Vec::new(),
        has_dirty_submodules: false,
        fetch_failed: false,
        has_github_remote: false,
        github_url: None,
        has_origin_remote: false,
        graph_key: String::new(),
        remote_key: String::new(),
    }
}

fn file(path: &str, status: FileStatus) -> FileEntry {
    FileEntry { path: path.to_string(), status, is_submodule: false, submodule_state: None }
}

#[test]
fn pad_right_fills_to_width_and_keeps_longer_text() {
    assert_eq!(pad_right("main", 6), "main  ");
    assert_eq!(pad_right("feature/long", 4), "feature/long");
    assert_eq!(pad_right("", 2), "  ");
}

#[test]
fn repo_row_without_status_shows_marker_and_name() {
    let mut list = RepoList::new(vec!["/code/app".to_string()], false, RepoNameFormat::Folder);
    let spans = list.render_repo_item(0);
    assert_eq!(texts(&spans), vec!["  ", "app"]);
    list.repos[0].git_op = true;
    let spans = list.render_repo_item(0);
    assert_eq!(spans[0].content, "~ ");
    assert_eq!(spans[0].style.fg, Some(Color::Cyan));
}

#[test]
fn repo_row_shows_every_indicator_in_order() {
    let mut st = status("main");
    st.is_dirty = true;
    st.ahead = 2;
    st.behind = 13;
    st.worktree_info = vec![WorktreeEntry { path: "/w".to_string(), branch: "wip".to_string() }];
    st.has_dirty_submodules = true;
    st.fetch_failed = true;
    st.files = vec![file("a", FileStatus::Modified), file("b", FileStatus::Added)];
    let mut list = RepoList::new(vec!["/code/app".to_string()], false, RepoNameFormat::Folder);
    list.update_status(0, st);
    let spans = list.render_repo_item(0);
    assert_eq!(
        texts(&spans),
        vec!["* ", "main         ", "\u{2191}2 ", "\u{2193}13 ", "\u{25b6}1 ", "\u{25c8} ", "\u{26a0} ", "[2] ", "app"]
    );
    assert_eq!(spans[0].style.fg, Some(Color::Yellow));
    assert_eq!(spans[3].style.fg, Some(Color::Red));

    let unfolded = repo_row(&list.repos[0], true, "app".to_string());
    assert_eq!(unfolded[4].content, "\u{25bc}1 ");
}

#[test]
fn worktree_row_shows_the_branch() {
    let mut st = status("main");
    st.worktree_info = vec![WorktreeEntry { path: "/w".to_string(), branch: "wip".to_string() }];
    let mut list = RepoList::new(vec!["/code/app".to_string()], false, RepoNameFormat::Folder);
    list.update_status(0, st);
    assert_eq!(texts(&list.render_worktree_item(0, 0)), vec!["    \u{2387} ", "wip"]);
    assert_eq!(texts(&worktree_row(&list.repos[0], 5)), vec!["    \u{2387} ", ""]);
}

#[test]
fn file_rows_show_mark_badge_and_submodule() {
    let plain = file_row(&file("src/a.rs", FileStatus::Modified), false);
    assert_eq!(texts(&plain), vec![" ", " M ", "src/a.rs"]);
    assert_eq!(plain[1].style.fg, Some(Color::Yellow));
    assert!(plain[1].style.bold);
    assert_eq!(plain[2].style.fg, Some(Color::White));

    let sub = FileEntry {
        path: "vendor/lib".to_string(),
        status: FileStatus::Modified,
        is_submodule: true,
        submodule_state: Some(SubmoduleState::Dirty),
    };
    let spans = file_row(&sub, true);
    assert_eq!(texts(&spans), vec!["\u{25cf}", " M ", "[sub: ~dirty] ", "vendor/lib"]);
    assert_eq!(spans[3].style.fg, Some(Color::LightMagenta));

    let mut list = FileList::new();
    list.set_files(vec![file("a", FileStatus::Added)], "app", RepoId("/code/app".to_string()));
    list.toggle_mark();
    assert_eq!(texts(&list.render_file_item(0)), vec!["\u{25cf}", " A ", "a"]);
}

#[test]
fn commit_file_rows_show_status_and_path() {
    let spans = commit_file_row("D", "old.txt");
    assert_eq!(texts(&spans), vec![" D ", "old.txt"]);
    assert_eq!(spans[0].style.fg, Some(Color::Red));
}

#[test]
fn status_line_prefers_fresh_error_then_success_then_idle() {
    let mut bar = StatusBar::new();
    assert_eq!(texts(&bar.status_line(0, 0)), vec![" Repos ", "  ", " h ", " help", "  ", " o ", " log"]);

    bar.success = Some(("Pushed app".to_string(), Instant::now()));
    assert_eq!(texts(&bar.status_line(0, 2)), vec![" OK ", " Pushed app"]);
    assert_eq!(texts(&bar.status_line(0, 3))[0], " Repos ");

    bar.error = Some(("boom".to_string(), Instant::now()));
    let spans = bar.status_line(4, 0);
    assert_eq!(texts(&spans), vec![" ERROR ", " boom"]);
    assert_eq!(spans[0].style.bg, Some(Color::Red));
    assert_eq!(texts(&bar.status_line(5, 0)), vec![" OK ", " Pushed app"]);

    bar.error = None;
    bar.success = None;
    bar.focus = FocusPanel::Graph;
    bar.focused_repo = Some("app".to_string());
    bar.fast_mode = true;
    assert_eq!(
        texts(&bar.status_line(0, 0)),
        vec![" Graph ", "  ", " h ", " help", "  ", " o ", " log", "  ", " FOCUS app ", " Esc unlock", "  ", " FAST "]
    );
}
