use gitoto::dialogs::{completed_path, CommitInput, ConfirmDialog, GitHubRepoInput, InputOutcome, NoticeDialog, PathInput, PathOutcome, StatusBar};
use gitoto::input::SingleLineInput;
use gitoto::menu::{ContextMenu, MenuAction, MenuOutcome, RepoMenuState};
use gitoto::repo::RepoId;
use gitoto::ui::{FocusPanel, KeyCode, KeyEvent};

fn key(code: KeyCode) -> KeyEvent {
    KeyEvent { code, ctrl: false, alt: false, shift: false }
}

fn ctrl(c: char) -> KeyEvent {
    KeyEvent { code: KeyCode::Char(c), ctrl: true, alt: false, shift: false }
}

fn repo_id() -> RepoId {
    RepoId("/tmp/repo".to_string())
}

fn menu_state() -> RepoMenuState {
    RepoMenuState {
        ahead: 1,
        behind: 1,
        has_upstream: true,
        has_submodules: true,
        has_github_remote: true,
        has_origin_remote: true,
    }
}

fn selected_label(menu: &ContextMenu) -> &str {
    let idx = menu.selected.unwrap();
    &menu.items[idx].label
}

#[test]
fn initial_selection_skips_separator() {
    let mut menu = ContextMenu::new();
    menu.show(repo_id(), 0, 0, menu_state());
    assert_eq!(selected_label(&menu), "Open git graph");
}

#[test]
fn navigation_skips_separators() {
    let mut menu = ContextMenu::new();
    menu.show(repo_id(), 0, 0, menu_state());

    for _ in 0..4 {
        menu.handle_key_event(key(KeyCode::Char('j')));
    }
    assert_eq!(selected_label(&menu), "Push  ↑1");

    menu.handle_key_event(key(KeyCode::Char('k')));
    assert_eq!(selected_label(&menu), "Commit all changes");
}

#[test]
fn activating_separator_does_not_emit_action() {
    let mut menu = ContextMenu::new();
    menu.show(repo_id(), 0, 0, menu_state());
    menu.selected = Some(0);

    assert!(menu.activate_selected().is_none());
    assert!(menu.visible);
}

#[test]
fn enter_chooses_entry_and_closes_menu() {
    let mut menu = ContextMenu::new();
    menu.show(repo_id(), 0, 0, menu_state());
    match menu.handle_key_event(key(KeyCode::Enter)) {
        MenuOutcome::Activated(MenuAction::OpenGraph, id) => assert_eq!(id.0, "/tmp/repo"),
        other => panic!("unexpected {other:?}"),
    }
    assert!(!menu.visible);
}

#[test]
fn other_key_dismisses_menu() {
    let mut menu = ContextMenu::new();
    menu.show(repo_id(), 0, 0, menu_state());
    assert!(matches!(menu.handle_key_event(key(KeyCode::Char('x'))), MenuOutcome::Dismissed));
    assert!(!menu.visible);
}

#[test]
fn menu_without_github_offers_creation() {
    let mut menu = ContextMenu::new();
    let mut st = menu_state();
    st.has_github_remote = false;
    st.has_submodules = false;
    st.has_origin_remote = false;
    st.has_upstream = false;
    st.behind = 0;
    menu.show(repo_id(), 0, 0, st);
    let labels: Vec<&str> = menu.items.iter().map(|i| i.label.as_str()).collect();
    assert_eq!(
        labels,
        vec![
            "Repository",
            "Open git graph",
            "Refresh",
            "Copy path",
            "Commit all changes",
            "Remote",
            "Push (publish first)",
            "Publish branch",
            "Pull",
            "Pull --rebase",
            "GitHub",
            "Create GitHub repo (private)",
            "Create GitHub repo (public)",
        ]
    );
}

#[test]
fn file_menu_selects_revert_entry() {
    let mut menu = ContextMenu::new();
    menu.show_for_file(repo_id(), "src/main.rs".to_string(), 3, 4);
    assert_eq!(selected_label(&menu), "Revert main.rs");
    assert_eq!(menu.items.len(), 3);
}

#[test]
fn commit_input_edits_and_answers() {
    let mut c = CommitInput::new();
    c.show(repo_id(), "app".to_string(), 2);
    for ch in "fix".chars() {
        assert_eq!(c.handle_key_event(key(KeyCode::Char(ch))), None);
    }
    assert_eq!(c.message(), "fix");
    assert_eq!(c.title(), " Message (Enter: commit 2 marked file(s), Esc: cancel) ");
    assert_eq!(c.label(), " Commit app: ");
    assert_eq!(c.handle_key_event(key(KeyCode::Enter)), Some(InputOutcome::Confirm));
    assert_eq!(c.repo_id().unwrap().0, "/tmp/repo");
    c.close();
    assert!(!c.visible);
    assert_eq!(c.message(), "");
}

#[test]
fn single_line_input_editing_keys() {
    let mut i = SingleLineInput::new();
    i.set("héllo".to_string());
    assert_eq!(i.cursor(), 5);
    i.handle_edit_key_event(key(KeyCode::Left));
    i.handle_edit_key_event(key(KeyCode::Left));
    assert!(i.handle_edit_key_event(key(KeyCode::Backspace)));
    assert_eq!(i.value(), "hélo");
    assert!(i.handle_edit_key_event(key(KeyCode::Char('X'))));
    assert_eq!(i.value(), "héXlo");
    assert!(!i.handle_edit_key_event(ctrl('a')));
    assert_eq!(i.cursor(), 0);
    assert!(i.handle_edit_key_event(key(KeyCode::Delete)));
    assert_eq!(i.value(), "éXlo");
    assert!(!i.handle_edit_key_event(key(KeyCode::Home)));
    assert!(!i.handle_edit_key_event(ctrl('e')));
    assert_eq!(i.cursor(), 4);
    assert!(i.handle_edit_key_event(ctrl('u')));
    assert_eq!(i.value(), "");
    let (before, under, after) = i.cursor_parts();
    assert_eq!((before.as_str(), under.as_str(), after.as_str()), ("", " ", ""));
}

#[test]
fn github_repo_input_proposes_local_name() {
    let mut g = GitHubRepoInput::new();
    assert!(g.private());
    g.show(repo_id(), false, "my-app".to_string());
    assert_eq!(g.name(), "my-app");
    assert_eq!(g.label(), " GitHub public repo: ");
    assert_eq!(g.handle_key_event(key(KeyCode::Esc)), Some(InputOutcome::Cancel));
    g.close();
    assert!(g.private());
    assert!(g.repo_id().is_none());
}

#[test]
fn notice_dialog_closes_on_q() {
    let mut n = NoticeDialog::new();
    n.show("done".to_string());
    n.handle_key_event(key(KeyCode::Char('x')));
    assert!(n.visible);
    n.handle_key_event(key(KeyCode::Char('q')));
    assert!(!n.visible);
    assert_eq!(n.message(), "");
}

#[test]
fn confirm_dialog_hands_back_action_on_yes() {
    let mut d: ConfirmDialog<u32> = ConfirmDialog::new();
    d.show("Sure?".to_string(), 7);
    assert_eq!(d.handle_key_event(key(KeyCode::Char('z'))), None);
    assert!(d.visible);
    assert_eq!(d.handle_key_event(key(KeyCode::Char('y'))), Some(7));
    assert!(!d.visible);
    d.show("Sure?".to_string(), 8);
    assert_eq!(d.handle_key_event(key(KeyCode::Esc)), None);
    assert!(!d.visible);
}

#[test]
fn path_input_enter_expands_tilde() {
    let mut p = PathInput::new();
    p.show();
    for ch in "~/code".chars() {
        p.handle_key_event_with_home(key(KeyCode::Char(ch)), None);
    }
    match p.handle_key_event_with_home(key(KeyCode::Enter), Some("/home/u")) {
        PathOutcome::AddRepo(path) => assert_eq!(path, "/home/u/code"),
        other => panic!("unexpected {other:?}"),
    }
    assert!(!p.visible);
}

#[test]
fn path_input_cycles_completions() {
    let mut p = PathInput::new();
    p.show();
    assert!(!p.cycle_completion());
    p.apply_matches(vec!["a/".to_string(), "b/".to_string()]);
    assert_eq!(p.value(), "a/");
    assert_eq!(p.completion_counter(), Some((0, 2)));
    assert!(p.cycle_completion());
    assert_eq!(p.value(), "b/");
    assert!(p.cycle_completion());
    assert_eq!(p.value(), "a/");
    p.handle_key_event_with_home(key(KeyCode::Char('x')), None);
    assert_eq!(p.completion_counter(), None);
}

#[test]
fn completed_path_forms() {
    assert_eq!(completed_path("src/", "", "lib"), "src/lib/");
    assert_eq!(completed_path("src/li", "li", "lib"), "src/lib/");
    assert_eq!(completed_path("li", "li", "lib"), "lib/");
    assert_eq!(completed_path("/li", "li", "lib"), "lib/");
}

#[test]
fn status_bar_starts_on_repos() {
    let s = StatusBar::new();
    assert_eq!(s.focus, FocusPanel::Repos);
    assert!(s.error.is_none());
}

#[test]
fn left_click_on_an_entry_chooses_it_and_outside_closes() {
    let mut menu = ContextMenu::new();
    menu.show(repo_id(), 0, 0, menu_state());
    menu.last_rendered_area = gitoto::ui::Area { x: 0, y: 0, width: 80, height: 40 };
    // Row 1 is the first item (a heading); row 2 the first entry.
    assert!(matches!(menu.handle_mouse_event(gitoto::ui::MouseInput::LeftDown(2, 1)), MenuOutcome::Nothing));
    assert_eq!(menu.selected, Some(0));
    assert!(menu.visible);
    match menu.handle_mouse_event(gitoto::ui::MouseInput::LeftDown(2, 2)) {
        MenuOutcome::Activated(MenuAction::OpenGraph, id) => assert_eq!(id.0, "/tmp/repo"),
        other => panic!("unexpected {other:?}"),
    }
    assert!(!menu.visible);

    menu.show(repo_id(), 0, 0, menu_state());
    assert!(matches!(menu.handle_mouse_event(gitoto::ui::MouseInput::LeftDown(79, 39)), MenuOutcome::Nothing));
    assert!(!menu.visible);
}

#[test]
fn path_input_expanded_value_keeps_plain_paths() {
    let mut p = PathInput::new();
    p.show();
    for ch in "/srv/code".chars() {
        p.handle_key_event_with_home(key(KeyCode::Char(ch)), None);
    }
    assert_eq!(p.expanded_value(), "/srv/code");
}

#[test]
fn confirming_a_blank_commit_message_is_refused() {
    let mut c = CommitInput::new();
    c.show(repo_id(), "app".to_string(), 0);
    c.handle_key_event(key(KeyCode::Char(' ')));
    let r = gitoto::control::confirm_commit(&mut c, vec![], false, "app");
    assert_eq!(r.err(), Some("Commit message is empty"));
    assert!(c.visible);
}

#[test]
fn confirming_a_commit_without_marks_commits_everything() {
    let mut c = CommitInput::new();
    c.show(repo_id(), "app".to_string(), 0);
    for ch in " fix ".chars() {
        c.handle_key_event(key(KeyCode::Char(ch)));
    }
    let run = gitoto::control::confirm_commit(&mut c, vec![], true, "app").ok().unwrap();
    assert_eq!(run.commands, vec![vec!["add", "."], vec!["commit", "--no-verify", "-m", "fix"]]);
    assert_eq!(run.progress, "Committing app...");
    assert_eq!(run.success, "Committed app");
    assert!(!c.visible);
}

#[test]
fn confirming_a_commit_with_marks_commits_only_them() {
    let mut c = CommitInput::new();
    c.show(repo_id(), "app".to_string(), 2);
    for ch in "fix".chars() {
        c.handle_key_event(key(KeyCode::Char(ch)));
    }
    let run = gitoto::control::confirm_commit(&mut c, vec!["a.rs".to_string(), "b.rs".to_string()], false, "app")
        .ok()
        .unwrap();
    assert_eq!(
        run.commands,
        vec![vec!["add", "--", "a.rs", "b.rs"], vec!["commit", "-m", "fix", "--", "a.rs", "b.rs"]]
    );
    assert_eq!(run.progress, "Committing 2 file(s) in app...");
    assert_eq!(run.success, "Committed 2 file(s) in app");
}
