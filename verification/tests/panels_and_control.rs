use gitoto::config::{BranchFilter, Config, RepoNameFormat};
use gitoto::refs::resolve_labels;
use gitoto::control::{
    add_repo_outcome, check_commit_message, check_new_repo_name, command_result, commit_all_args, commit_paths_args, github_remote_choice,
    publish_args, commit_texts, failure_message, graph_update, index_after_removal,
    plan_git_command, push_log, sanitize_error, submodule_shows_diff, worktree_graph_changed, GitCommand,
    GitOperation, GitPlan, GraphUpdate, StatusTracker,
};
use gitoto::file_list::FileList;
use gitoto::graph::{DiffStat, GraphRow, LaneSegment};
use gitoto::graph_view::{complete_diff_stats, GitGraph, GraphRequest};
use gitoto::oid::Oid;
use gitoto::repo::{RepoEntry, RepoId, RepoList};
use gitoto::routing::{click_focus, grab_border, route_key, AppCommand, KeyContext, KeyRoute};
use gitoto::sort::sort_paths;
use gitoto::status::{FileEntry, FileStatus, RepoStatus, SubmoduleState};
use gitoto::ui::{Area, FocusPanel, KeyCode, KeyEvent, MouseInput};

fn key(code: KeyCode) -> KeyEvent {
    KeyEvent { code, ctrl: false, alt: false, shift: false }
}

fn file(path: &str) -> FileEntry {
    FileEntry { path: path.to_string(), status: FileStatus::Modified, is_submodule: false, submodule_state: None }
}

fn files(paths: &[&str]) -> Vec<FileEntry> {
    paths.iter().map(|p| file(p)).collect()
}

fn repo(path: &str) -> RepoId {
    RepoId(path.to_string())
}

fn status(branch: &str, has_upstream: bool, ahead: usize) -> RepoStatus {
    RepoStatus {
        branch: branch.to_string(),
        files: Vec::new(),
        ahead,
        behind: 0,
        has_upstream,
        is_dirty: false,
        worktree_info: Vec::new(),
        has_submodules: false,
        submodules: Vec::new(),
        has_dirty_submodules: false,
        fetch_failed: false,
        has_github_remote: false,
        github_url: None,
        has_origin_remote: true,
        graph_key: String::new(),
        remote_key: String::new(),
    }
}

fn list_with(path: &str, st: Option<RepoStatus>) -> RepoList {
    let mut list = RepoList::new(vec![path.to_string()], false, RepoNameFormat::Folder);
    if let Some(st) = st {
        list.update_status(0, st);
    }
    list
}

fn oid(ch: char) -> Oid {
    Oid::from_hex(&ch.to_string().repeat(40)).unwrap()
}

fn row(ch: char) -> GraphRow {
    GraphRow {
        commit_col: 0,
        lanes: vec![LaneSegment::Commit],
        horizontal_spans: Vec::new(),
        oid: oid(ch),
        short_id: ch.to_string().repeat(7),
        message: format!("commit {ch}"),
        author: "Author".to_string(),
        time: 0,
        labels: Vec::new(),
        is_pushed: false,
        is_merge: false,
        parent_oids: Vec::new(),
        diff_stat: None,
        collapsed: None,
    }
}

// --- file list ------------------------------------------------------------

#[test]
fn file_list_marks_toggle_and_come_out_in_path_order() {
    let mut list = FileList::new();
    list.set_files(files(&["b.txt", "a/z.txt", "a-b.txt"]), "repo", repo("/r"));
    assert_eq!(list.selected, Some(0));
    list.toggle_mark();
    list.selected = Some(1);
    list.toggle_mark();
    list.selected = Some(2);
    list.toggle_mark();
    // Paths compare component by component: "a/z.txt" before "a-b.txt".
    assert_eq!(list.marked_paths_for(&repo("/r")), vec!["a/z.txt", "a-b.txt", "b.txt"]);
    assert!(list.marked_paths_for(&repo("/other")).is_empty());
    assert_eq!(list.title(), " Changes — repo (3 marked) ");
}

#[test]
fn toggling_a_mark_twice_restores_the_marks() {
    let mut list = FileList::new();
    list.set_files(files(&["x.rs", "y.rs"]), "repo", repo("/r"));
    list.toggle_mark();
    let before = list.marked.clone();
    list.selected = Some(1);
    list.toggle_mark();
    list.toggle_mark();
    assert_eq!(list.marked, before);
}

#[test]
fn marks_survive_only_on_listed_paths_of_the_same_repo() {
    let mut list = FileList::new();
    list.set_files(files(&["a", "b"]), "repo", repo("/r"));
    list.toggle_mark();
    list.selected = Some(1);
    list.toggle_mark();
    list.set_files(files(&["b", "c"]), "repo", repo("/r"));
    assert_eq!(list.marked, vec!["b".to_string()]);
    assert_eq!(list.selected, Some(1));
    list.set_files(files(&["b"]), "other", repo("/o"));
    assert!(list.marked.is_empty());
    assert_eq!(list.selected, Some(0));
    list.set_files(Vec::new(), "other", repo("/o"));
    assert_eq!(list.selected, None);
    assert_eq!(list.empty_message(), "No changes");
}

#[test]
fn file_list_enter_asks_for_the_diff_and_esc_closes_it() {
    let mut list = FileList::new();
    list.set_files(files(&["src/main.rs"]), "repo", repo("/r"));
    let req = list.handle_key_event(key(KeyCode::Enter));
    assert_eq!(req.map(|(id, p)| (id.0, p)), Some(("/r".to_string(), "src/main.rs".to_string())));
    assert_eq!(list.diff_generation(), 1);
    list.set_diff("diff text".to_string());
    assert!(list.viewing_diff());
    list.handle_key_event(key(KeyCode::Char('j')));
    assert_eq!(list.diff_scroll, 1);
    list.handle_key_event(key(KeyCode::Char('q')));
    assert!(!list.viewing_diff());
    assert_eq!(list.diff_scroll, 0);
}

#[test]
fn file_list_click_selects_then_opens() {
    let mut list = FileList::new();
    list.set_files(files(&["a", "b", "c"]), "repo", repo("/r"));
    list.render_area = Area { x: 0, y: 0, width: 20, height: 10 };
    assert!(list.handle_mouse_event(MouseInput::LeftDown(3, 3)).is_none());
    assert_eq!(list.selected, Some(2));
    let req = list.handle_mouse_event(MouseInput::LeftDown(3, 3));
    assert_eq!(req.map(|(_, p)| p), Some("c".to_string()));
    list.handle_mouse_event(MouseInput::ScrollUp(3, 3));
    assert_eq!(list.selected, Some(1));
}

#[test]
fn paths_sort_component_by_component() {
    let sorted = sort_paths(vec!["a-b".to_string(), "a/b".to_string(), "a".to_string()]);
    assert_eq!(sorted, vec!["a", "a/b", "a-b"]);
}

// --- graph panel ------------------------------------------------------------

fn loaded_graph(rows: Vec<GraphRow>) -> GitGraph {
    let mut g = GitGraph::new();
    let gen = g.load_repo("/repo".to_string(), "repo".to_string(), true);
    assert_eq!(gen, Some(1));
    g.set_rows(rows);
    g
}

#[test]
fn graph_enter_asks_for_commit_files() {
    let mut g = loaded_graph(vec![row('a'), row('b')]);
    g.handle_key_event(key(KeyCode::Down));
    assert_eq!(g.selected, Some(1));
    match g.handle_key_event(key(KeyCode::Enter)) {
        GraphRequest::ShowCommitFiles { repo_path, oid } => {
            assert_eq!(repo_path, "/repo");
            assert_eq!(oid, "b".repeat(40));
        }
        other => panic!("unexpected {other:?}"),
    }
    assert_eq!(g.current_detail_generation(), 1);
}

#[test]
fn graph_detail_navigation_and_deferred_reload() {
    let mut g = loaded_graph(vec![row('a')]);
    g.set_commit_files(
        "a".repeat(40),
        "msg".to_string(),
        vec![("M".to_string(), "x.rs".to_string()), ("A".to_string(), "y.rs".to_string())],
    );
    g.handle_key_event(key(KeyCode::Char('j')));
    match g.handle_key_event(key(KeyCode::Enter)) {
        GraphRequest::ShowCommitDiff { repo_path, oid, file_path } => {
            assert_eq!(repo_path, "/repo");
            assert_eq!(oid, "a".repeat(40));
            assert_eq!(file_path, "y.rs");
        }
        other => panic!("unexpected {other:?}"),
    }
    g.set_needs_reload();
    assert!(matches!(g.handle_key_event(key(KeyCode::Esc)), GraphRequest::Reload));
    assert!(!g.has_detail());
    assert!(!g.needs_reload);
}

#[test]
fn graph_first_parent_toggle_reloads_and_sideways_scroll_steps_by_four() {
    let mut g = loaded_graph(vec![row('a')]);
    assert!(matches!(g.handle_key_event(key(KeyCode::Char('f'))), GraphRequest::Reload));
    assert!(g.graph_options.first_parent);
    g.handle_key_event(key(KeyCode::Right));
    g.handle_key_event(key(KeyCode::Char('l')));
    assert_eq!(g.h_scroll, 8);
    g.handle_key_event(key(KeyCode::Left));
    assert_eq!(g.h_scroll, 4);
}

#[test]
fn graph_click_on_selected_commit_opens_it() {
    let mut g = loaded_graph(vec![row('a'), row('b'), row('c')]);
    g.graph_list_area = Area { x: 0, y: 0, width: 30, height: 10 };
    assert!(matches!(g.handle_mouse_event(MouseInput::LeftDown(5, 2)), GraphRequest::Nothing));
    assert_eq!(g.selected, Some(1));
    assert!(matches!(g.handle_mouse_event(MouseInput::LeftDown(5, 2)), GraphRequest::ShowCommitFiles { .. }));
    g.handle_mouse_event(MouseInput::ScrollDown(5, 2));
    assert_eq!(g.selected, Some(2));
}

#[test]
fn diff_stats_are_planned_once_per_commit() {
    let mut g = loaded_graph(vec![row('a'), row('b'), row('c')]);
    let (path, oids, gen) = g.plan_diff_stats(10, true).unwrap();
    assert_eq!(path, "/repo");
    assert_eq!(gen, 1);
    assert_eq!(oids.len(), 3);
    assert!(g.plan_diff_stats(10, true).is_none());
    assert!(g.plan_diff_stats(10, false).is_none());
}

#[test]
fn missing_diff_stats_are_completed_with_zero() {
    let found = vec![(oid('a'), DiffStat { additions: 3, deletions: 1 })];
    let all = complete_diff_stats(&vec![oid('a'), oid('b')], found);
    assert_eq!(all.len(), 2);
    assert_eq!(all[0].1, DiffStat { additions: 3, deletions: 1 });
    assert_eq!(all[1].0.to_hex(), "b".repeat(40));
    assert_eq!(all[1].1, DiffStat { additions: 0, deletions: 0 });
}

#[test]
fn pushed_status_refresh_only_for_the_shown_repo() {
    let g = loaded_graph(vec![row('a')]);
    assert_eq!(g.refresh_pushed_status_for_path("/repo", true), Some(1));
    assert_eq!(g.refresh_pushed_status_for_path("/elsewhere", true), None);
    assert_eq!(g.refresh_pushed_status(true), Some(("/repo".to_string(), 1)));
    assert_eq!(g.refresh_pushed_status(false), None);
}

// --- git commands -------------------------------------------------------------

#[test]
fn push_is_refused_on_detached_head_and_without_upstream() {
    let list = list_with("/w/app", Some(status("HEAD", true, 1)));
    assert!(matches!(plan_git_command(&list, RepoNameFormat::Folder, &repo("/w/app"), GitCommand::Push),
        GitPlan::Error(m) if m == "Cannot push detached HEAD"));
    let list = list_with("/w/app", Some(status("main", false, 1)));
    assert!(matches!(plan_git_command(&list, RepoNameFormat::Folder, &repo("/w/app"), GitCommand::Push),
        GitPlan::Error(m) if m == "Branch 'main' has no upstream; press P to publish"));
    let list = list_with("/w/app", Some(status("main", true, 0)));
    assert!(matches!(plan_git_command(&list, RepoNameFormat::Folder, &repo("/w/app"), GitCommand::Push),
        GitPlan::Info(m) if m == "Nothing to push"));
}

#[test]
fn push_runs_with_progress_and_success_texts() {
    let list = list_with("/w/app", Some(status("main", true, 2)));
    match plan_git_command(&list, RepoNameFormat::Folder, &repo("/w/app"), GitCommand::Push) {
        GitPlan::Run { index, operation, progress, success, error_context } => {
            assert_eq!(index, 0);
            assert!(matches!(operation, GitOperation::Push));
            assert_eq!(progress, "Pushing to app...");
            assert_eq!(success, "Pushed app");
            assert_eq!(error_context, None);
        }
        other => panic!("unexpected {other:?}"),
    }
    assert!(matches!(plan_git_command(&list, RepoNameFormat::Folder, &repo("/nope"), GitCommand::Push), GitPlan::Nothing));
}

#[test]
fn pull_names_origin_and_branch_and_rebase_asks_first() {
    let list = list_with("/w/app", Some(status("dev", true, 0)));
    match plan_git_command(&list, RepoNameFormat::Folder, &repo("/w/app"), GitCommand::Pull) {
        GitPlan::Run { operation: GitOperation::Args(args), progress, .. } => {
            assert_eq!(args, vec!["pull", "origin", "dev"]);
            assert_eq!(progress, "Pulling app...");
        }
        other => panic!("unexpected {other:?}"),
    }
    match plan_git_command(&list, RepoNameFormat::Folder, &repo("/w/app"), GitCommand::PullRebase) {
        GitPlan::Confirm { prompt, then } => {
            assert_eq!(prompt, "Pull --rebase app?");
            assert!(matches!(then, GitCommand::RunPullRebase));
        }
        other => panic!("unexpected {other:?}"),
    }
    let bare = list_with("/w/app", None);
    match plan_git_command(&bare, RepoNameFormat::Folder, &repo("/w/app"), GitCommand::RunRemoveOrigin) {
        GitPlan::Run { operation: GitOperation::Args(args), success, .. } => {
            assert_eq!(args, vec!["remote", "remove", "origin"]);
            assert_eq!(success, "Removed origin from app");
        }
        other => panic!("unexpected {other:?}"),
    }
}

#[test]
fn publish_and_create_carry_context() {
    let list = list_with("/w/app", Some(status("feat", false, 0)));
    match plan_git_command(&list, RepoNameFormat::Folder, &repo("/w/app"), GitCommand::Publish) {
        GitPlan::Run { operation: GitOperation::Publish(b), success, error_context, .. } => {
            assert_eq!(b, "feat");
            assert_eq!(success, "Published app:feat");
            assert_eq!(error_context, Some("Publish failed"));
        }
        other => panic!("unexpected {other:?}"),
    }
    let cmd = GitCommand::CreateGitHubRepo { private: true, name: "tool".to_string() };
    match plan_git_command(&list, RepoNameFormat::Folder, &repo("/w/app"), cmd) {
        GitPlan::Run { progress, success, error_context, .. } => {
            assert_eq!(progress, "Creating private GitHub repo tool...");
            assert_eq!(success, "Created private GitHub repo tool");
            assert_eq!(error_context, Some("Create GitHub repo failed"));
        }
        other => panic!("unexpected {other:?}"),
    }
}

// --- status bookkeeping ---------------------------------------------------------

#[test]
fn queued_queries_start_once_per_repo() {
    let mut t = StatusTracker::new();
    let started = t.queue(vec![(repo("/a"), "/a".to_string()), (repo("/a"), "/a".to_string()), (repo("/b"), "/b".to_string())]);
    assert_eq!(started.len(), 2);
    assert!(t.queue(vec![(repo("/b"), "/b".to_string())]).is_empty());
    assert_eq!(t.pending, vec!["/a".to_string(), "/b".to_string()]);
}

#[test]
fn refresh_during_a_query_marks_the_repo_dirty() {
    let list = RepoList::new(vec!["/a".to_string()], false, RepoNameFormat::Folder);
    let mut t = StatusTracker::new();
    assert_eq!(t.refresh_repo(&list, &repo("/a")).len(), 1);
    assert!(t.refresh_repo(&list, &repo("/a")).is_empty());
    assert_eq!(t.dirty, vec!["/a".to_string()]);
    assert!(t.status_updated(&repo("/a")));
    assert!(t.pending.is_empty() && t.dirty.is_empty());
}

#[test]
fn local_polls_scan_everything_every_nth_tick() {
    let mut list = RepoList::new(vec!["/a".to_string(), "/b".to_string()], false, RepoNameFormat::Folder);
    list.update_status(0, status("main", true, 0));
    list.update_status(1, status("main", true, 0));
    list.selected = None;
    let mut t = StatusTracker::new();
    assert_eq!(t.poll_local(&list, 3).len(), 2);
    t.pending.clear();
    assert!(t.poll_local(&list, 3).is_empty());
    assert!(t.poll_local(&list, 3).is_empty());
    assert_eq!(t.poll_local(&list, 3).len(), 2);
    assert_eq!(t.local_poll_tick, 4);
    t.pending.clear();
    assert!(t.poll_fetch(&list, true).is_empty());
    assert_eq!(t.poll_fetch(&list, false).len(), 2);
}

#[test]
fn snapshots_report_changes() {
    let mut t = StatusTracker::new();
    assert!(t.graph_changed("/a".to_string(), "k1"));
    assert!(!t.graph_changed("/a".to_string(), "k1"));
    assert!(t.graph_changed("/a".to_string(), "k2"));
    assert!(!t.remote_changed("/a".to_string(), ""));
    assert!(t.remote_changed("/b".to_string(), "origin/main"));
    t.forget(&repo("/a"));
    assert!(t.graph_changed("/a".to_string(), "k2"));
}

#[test]
fn finished_query_frees_the_repo() {
    let mut list = RepoList::new(vec!["/a".to_string()], false, RepoNameFormat::Folder);
    let mut t = StatusTracker::new();
    t.refresh_all(&mut list);
    assert!(list.repos[0].git_op);
    assert!(!t.status_query_done(&mut list, &repo("/a")));
    assert!(!list.repos[0].git_op);
}

#[test]
fn graph_reaction_to_status() {
    assert_eq!(graph_update(true, true, false, true, 3), GraphUpdate::DeferReload);
    assert_eq!(graph_update(true, true, false, false, 3), GraphUpdate::Load);
    assert_eq!(graph_update(true, false, false, false, 0), GraphUpdate::Load);
    assert_eq!(graph_update(true, false, true, false, 2), GraphUpdate::RefreshPushed);
    assert_eq!(graph_update(false, true, true, false, 2), GraphUpdate::RefreshPushedForPath);
    assert_eq!(graph_update(false, true, false, false, 2), GraphUpdate::Nothing);
    assert!(!worktree_graph_changed(&None, "k"));
    assert!(worktree_graph_changed(&Some("a".to_string()), "b"));
}

// --- messages and repository actions -------------------------------------------------

#[test]
fn error_text_is_flattened_and_cut() {
    assert_eq!(sanitize_error("a\nb"), "a b");
    let long = "x".repeat(130);
    let cut = sanitize_error(&long);
    assert_eq!(cut.chars().count(), 120);
    assert!(cut.ends_with("..."));
    assert_eq!(sanitize_error(&"y".repeat(120)), "y".repeat(120));
}

#[test]
fn operation_log_keeps_the_latest_fifty() {
    let mut log = Vec::new();
    for i in 0..55 {
        push_log(&mut log, format!("m{i}"));
    }
    assert_eq!(log.len(), 50);
    assert_eq!(log[0], "m5");
    assert_eq!(log[49], "m54");
}

#[test]
fn new_repo_names_are_checked() {
    assert_eq!(check_new_repo_name("  tool-x "), Ok("tool-x".to_string()));
    assert_eq!(check_new_repo_name("   "), Err("Repository name is empty"));
    assert_eq!(
        check_new_repo_name("bad name"),
        Err("Repository name can only contain letters, numbers, '.', '_' and '-'")
    );
}

#[test]
fn commit_and_failure_texts() {
    assert_eq!(commit_texts("app", 0), ("Committing app...".to_string(), "Committed app".to_string()));
    assert_eq!(
        commit_texts("app", 2),
        ("Committing 2 file(s) in app...".to_string(), "Committed 2 file(s) in app".to_string())
    );
    assert_eq!(failure_message(Some("Commit failed"), "boom"), "Commit failed: boom");
    assert_eq!(failure_message(None, "boom"), "boom");
}

#[test]
fn adding_a_path_that_is_not_a_repository_explains_why() {
    assert_eq!(add_repo_outcome("/w/app", true), Ok("app".to_string()));
    assert_eq!(add_repo_outcome("/w/app", false), Err("Not a git repository: /w/app".to_string()));
    assert!(add_repo_outcome("https://github.com/o/r", false).unwrap_err().starts_with("Remote repository URLs"));
}

#[test]
fn removing_a_repo_unpins_and_excludes_it() {
    let mut c = Config::default();
    c.add_pinned_repo("/w/app".to_string());
    c.forget_repo("/w/app", "app".to_string());
    c.forget_repo("/w/app", "app".to_string());
    assert!(c.pinned_repos.is_empty());
    assert_eq!(c.excluded_repos.iter().filter(|n| n.as_str() == "app").count(), 1);
    assert_eq!(index_after_removal(3, 3), Some(2));
    assert_eq!(index_after_removal(0, 0), None);
}

#[test]
fn submodule_diff_or_log() {
    assert!(submodule_shows_diff("", "abc", SubmoduleState::Modified));
    assert!(!submodule_shows_diff("abc", "def", SubmoduleState::Modified));
    assert!(submodule_shows_diff("abc", "def", SubmoduleState::Dirty));
}

// --- key routing -------------------------------------------------------------------

fn ctx() -> KeyContext {
    KeyContext {
        notice_visible: false,
        confirm_visible: false,
        path_input_visible: false,
        commit_input_visible: false,
        github_input_visible: false,
        search_visible: false,
        menu_visible: false,
        show_help: false,
        help_page: 0,
        show_operation_log: false,
        focus: FocusPanel::Repos,
        focused_repo: false,
        viewing_diff: false,
        graph_detail: false,
        has_active_repo: true,
    }
}

#[test]
fn keys_route_to_dialogs_overlays_and_panels() {
    let ctrl_c = KeyEvent { code: KeyCode::Char('c'), ctrl: true, alt: false, shift: false };
    assert_eq!(route_key(KeyContext { notice_visible: true, ..ctx() }, ctrl_c), KeyRoute::Quit);
    assert_eq!(route_key(KeyContext { confirm_visible: true, ..ctx() }, key(KeyCode::Char('y'))), KeyRoute::Confirm);
    assert_eq!(route_key(ctx(), key(KeyCode::Char('?'))), KeyRoute::OpenHelp);
    assert_eq!(route_key(KeyContext { show_help: true, help_page: 0, ..ctx() }, key(KeyCode::BackTab)), KeyRoute::HelpPage(4));
    assert_eq!(route_key(KeyContext { show_help: true, help_page: 4, ..ctx() }, key(KeyCode::Tab)), KeyRoute::HelpPage(0));
    assert_eq!(route_key(ctx(), key(KeyCode::Tab)), KeyRoute::Focus(FocusPanel::Changes));
    assert_eq!(route_key(KeyContext { focused_repo: true, focus: FocusPanel::Graph, ..ctx() }, key(KeyCode::Tab)), KeyRoute::Focus(FocusPanel::Changes));
    assert_eq!(route_key(ctx(), key(KeyCode::Esc)), KeyRoute::Quit);
    assert_eq!(route_key(KeyContext { focus: FocusPanel::Changes, viewing_diff: true, ..ctx() }, key(KeyCode::Char('q'))), KeyRoute::Changes);
    assert_eq!(route_key(ctx(), key(KeyCode::Char('p'))), KeyRoute::Command(AppCommand::Push));
    assert_eq!(route_key(KeyContext { has_active_repo: false, ..ctx() }, key(KeyCode::Char('p'))), KeyRoute::NoRepoSelected);
    assert_eq!(route_key(KeyContext { focus: FocusPanel::Graph, ..ctx() }, key(KeyCode::Char('c'))), KeyRoute::Graph);
    assert_eq!(route_key(ctx(), key(KeyCode::Char('j'))), KeyRoute::Repos);
}

#[test]
fn borders_and_focus_follow_the_pointer() {
    assert_eq!(grab_border(10, 11, 12), Some(0));
    assert_eq!(grab_border(12, 9, 12), Some(1));
    assert_eq!(grab_border(20, 9, 12), None);
    let repos = Area { x: 0, y: 0, width: 10, height: 5 };
    let changes = Area { x: 0, y: 5, width: 10, height: 5 };
    let graph = Area { x: 0, y: 10, width: 10, height: 5 };
    assert_eq!(click_focus(repos, changes, graph, 1, 1, false), Some(FocusPanel::Repos));
    assert_eq!(click_focus(repos, changes, graph, 1, 1, true), None);
    assert_eq!(click_focus(repos, changes, graph, 1, 12, false), Some(FocusPanel::Graph));
}

#[test]
fn selected_worktree_row_names_its_repo() {
    let mut st = status("main", true, 0);
    st.worktree_info.push(gitoto::status::WorktreeEntry { path: "/w/app-wt".to_string(), branch: "feat".to_string() });
    let mut list = list_with("/w/app", Some(st));
    list.selected = Some(0);
    list.toggle_expand();
    list.select_next();
    let (id, wt) = list.selected_worktree().unwrap();
    assert_eq!(id.0, "/w/app");
    assert_eq!(wt.branch, "feat");
    assert_eq!(list.selected_repo().map(|e: &RepoEntry| e.path.clone()), Some("/w/app".to_string()));
}

// --- labels and git command lines ----------------------------------------------------

#[test]
fn labels_come_head_first_then_branches_then_remotes_then_tags() {
    let local = vec![("main".to_string(), oid('a')), ("feat".to_string(), oid('b')), ("alpha".to_string(), oid('a'))];
    let remote = vec![("origin/main".to_string(), oid('a'))];
    let tags = vec![("v1".to_string(), oid('a'))];
    let refs = resolve_labels(
        &local,
        &remote,
        &tags,
        &Some(oid('a')),
        &Some("main".to_string()),
        &vec!["feat".to_string()],
        BranchFilter::All,
    );
    assert_eq!(refs.len(), 2);
    let a = refs.iter().find(|r| r.oid.to_hex() == "a".repeat(40)).unwrap();
    let names: Vec<&str> = a.labels.iter().map(|l| l.name.as_str()).collect();
    assert_eq!(names, vec!["main", "alpha", "origin/main", "v1"]);
    assert!(a.labels[0].is_head && a.labels[2].is_remote && a.labels[3].is_tag);
    let b = refs.iter().find(|r| r.oid.to_hex() == "b".repeat(40)).unwrap();
    assert!(b.labels[0].is_worktree);
    let local_only = resolve_labels(&local, &remote, &tags, &None, &None, &Vec::new(), BranchFilter::Local);
    assert!(local_only.iter().all(|r| r.labels.iter().all(|l| !l.is_remote)));
    assert!(resolve_labels(&local, &remote, &tags, &None, &None, &Vec::new(), BranchFilter::Off).is_empty());
}

#[test]
fn commit_command_lines() {
    assert_eq!(commit_all_args("msg", true).unwrap(), vec!["commit", "--no-verify", "-m", "msg"]);
    assert_eq!(commit_all_args("  ", false), Err("commit message is empty"));
    let (add, commit) = commit_paths_args("msg", false, &vec!["a.txt".to_string()]).unwrap();
    assert_eq!(add, vec!["add", "--", "a.txt"]);
    assert_eq!(commit, vec!["commit", "-m", "msg", "--", "a.txt"]);
    assert_eq!(commit_paths_args("msg", false, &Vec::new()), Err("no files marked"));
    assert_eq!(publish_args("feat").unwrap(), vec!["push", "-u", "origin", "feat"]);
    assert_eq!(publish_args("HEAD"), Err("cannot publish detached HEAD"));
}

#[test]
fn command_results_pick_output_or_first_error_line() {
    assert_eq!(command_result("git push", true, "  done \n", "warn"), Ok("done".to_string()));
    assert_eq!(command_result("git push", true, "", " warn \n"), Ok("warn".to_string()));
    assert_eq!(
        command_result("git pull", false, "", "\n  fatal: bad thing  \nmore"),
        Err("git pull failed: fatal: bad thing".to_string())
    );
    assert_eq!(command_result("git x", false, "", ""), Err("git x failed: unknown git error".to_string()));
    assert_eq!(github_remote_choice(false, true), Ok("origin"));
    assert_eq!(github_remote_choice(true, false), Ok("github"));
    assert!(github_remote_choice(true, true).is_err());
}

#[test]
fn test_commit_paths_rejects_empty_selection() {
    assert!(commit_paths_args("msg", false, &Vec::new()).is_err());
}

#[test]
fn folding_from_a_worktree_row_selects_its_repository() {
    let mut st = status("main", true, 0);
    st.worktree_info.push(gitoto::status::WorktreeEntry { path: "/w/app-wt".to_string(), branch: "feat".to_string() });
    let mut list = list_with("/w/app", Some(st));
    list.selected = Some(0);
    assert!(matches!(list.handle_key_event(key(KeyCode::Char('w'))), Some(_)));
    assert_eq!(list.expanded_repos, vec!["/w/app".to_string()]);
    list.select_next();
    assert_eq!(list.selected, Some(1));
    list.handle_key_event(key(KeyCode::Char('w')));
    assert!(list.expanded_repos.is_empty());
    assert_eq!(list.selected, Some(0));
}

#[test]
fn commit_messages_are_trimmed_and_must_not_be_blank() {
    assert_eq!(check_commit_message("  fix bug \n"), Ok("fix bug".to_string()));
    assert_eq!(check_commit_message(" \t\n"), Err("Commit message is empty"));
    assert_eq!(check_commit_message(""), Err("Commit message is empty"));
}

#[test]
fn shift_tab_undoes_tab_for_focus_and_help_pages() {
    for focus in [FocusPanel::Repos, FocusPanel::Changes, FocusPanel::Graph] {
        let c = KeyContext { focus, ..ctx() };
        let KeyRoute::Focus(next) = route_key(c, key(KeyCode::Tab)) else { panic!("tab moves focus") };
        assert_eq!(route_key(KeyContext { focus: next, ..c }, key(KeyCode::BackTab)), KeyRoute::Focus(focus));
    }
    for page in 0..5 {
        let c = KeyContext { show_help: true, help_page: page, ..ctx() };
        let KeyRoute::HelpPage(next) = route_key(c, key(KeyCode::Tab)) else { panic!("tab pages") };
        assert_eq!(route_key(KeyContext { help_page: next, ..c }, key(KeyCode::BackTab)), KeyRoute::HelpPage(page));
    }
}

#[test]
fn superseded_graph_results_are_dropped() {
    let mut g = GitGraph::new();
    assert_eq!(g.load_repo("/repo".to_string(), "repo".to_string(), true), Some(1));
    assert_eq!(g.load_repo("/repo".to_string(), "repo".to_string(), true), Some(2));
    assert!(!g.set_rows_if_current(1, vec![row('a')]));
    assert!(g.all_rows.is_empty());
    assert!(!g.set_pushed_oids_if_current(1, vec![]));
    assert!(!g.set_diff_stats_if_current(1, vec![]));
    assert!(g.set_rows_if_current(2, vec![row('a'), row('b')]));
    assert_eq!(g.all_rows.len(), 2);
    assert!(!g.set_commit_files_if_current(1, "a".to_string(), "m".to_string(), vec![]));
    assert!(!g.has_detail());
    assert!(g.set_commit_files_if_current(0, "a".to_string(), "m".to_string(), vec![]));
    assert!(g.has_detail());
    assert!(!g.set_commit_diff_if_current(5, "diff".to_string()));
}

#[test]
fn superseded_file_diff_is_dropped() {
    let mut list = FileList::new();
    list.set_files(files(&["src/main.rs"]), "repo", repo("/r"));
    list.handle_key_event(key(KeyCode::Enter));
    assert!(!list.set_diff_if_current(0, "old".to_string()));
    assert!(!list.viewing_diff());
    assert!(list.set_diff_if_current(1, "new".to_string()));
    assert!(list.viewing_diff());
}

#[test]
fn status_from_parts_derives_flags() {
    let st = RepoStatus::from_parts(
        "main".to_string(), vec![], 0, 0, false, false, vec![], true, vec![], false,
        Some("https://github.com/a/b".to_string()), true, String::new(), String::new(),
    );
    assert!(!st.is_dirty);
    assert!(!st.has_dirty_submodules);
    assert!(st.has_github_remote);
    let sub = gitoto::status::SubmoduleInfo { path: "lib".to_string(), state: SubmoduleState::Modified, head_oid: None, workdir_oid: None };
    let st = RepoStatus::from_parts(
        "main".to_string(), vec![], 0, 0, false, false, vec![], true, vec![sub], false,
        None, false, String::new(), String::new(),
    );
    assert!(st.is_dirty);
    assert!(st.has_dirty_submodules);
    assert!(!st.has_github_remote);
}

#[test]
fn removing_a_repo_clears_its_state_and_moves_the_selection() {
    let mut list = RepoList::new(vec!["/a".to_string(), "/b".to_string()], false, RepoNameFormat::Folder);
    let mut tracker = StatusTracker::new();
    let mut config = Config::default();
    config.add_pinned_repo("/a".to_string());
    let next = gitoto::control::remove_repo_state(&mut tracker, &mut config, &mut list, &repo("/a"));
    assert_eq!(next, Some(Some(0)));
    assert_eq!(list.repos.len(), 1);
    assert_eq!(list.repos[0].path, "/b");
    assert!(config.pinned_repos.is_empty());
    assert_eq!(config.excluded_repos.last(), Some(&"a".to_string()));
    assert_eq!(gitoto::control::remove_repo_state(&mut tracker, &mut config, &mut list, &repo("/zz")), None);
    assert_eq!(list.repos.len(), 1);
    assert_eq!(gitoto::control::remove_repo_state(&mut tracker, &mut config, &mut list, &repo("/b")), Some(None));
    assert_eq!(list.selected, None);
}

#[test]
fn local_filter_lists_no_remote_only_commit() {
    let local = vec![("main".to_string(), oid('a'))];
    let remote = vec![("origin/feat".to_string(), oid('b'))];
    let refs = resolve_labels(&local, &remote, &Vec::new(), &Some(oid('a')), &Some("main".to_string()), &Vec::new(), BranchFilter::Local);
    assert_eq!(refs.len(), 1);
    assert_eq!(refs[0].oid, oid('a'));
    let none = resolve_labels(&Vec::new(), &remote, &Vec::new(), &Some(oid('a')), &None, &Vec::new(), BranchFilter::Local);
    assert!(none.is_empty());
}
