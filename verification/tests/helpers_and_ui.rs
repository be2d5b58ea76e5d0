use gitoto::helpers::{
    base64_encode, changed_repos, contains_excluded_component, explain_git_failure, file_diff_text, git_args, is_excluded_repo, keep_dir,
    is_git_path, is_meaningful_git_event, is_valid_github_repo_name, section_header, short_oid,
    sort_repos_with_pinned_first, submodule_diff_text, SortOrder,
};
use gitoto::sort::sort_strings;
use gitoto::status::sorted_cache_key;
use gitoto::ui::{
    clicked_list_index, modal_rect, preserve_or_first, select_next, select_next_matching, select_prev,
    select_prev_matching, Area,
};

#[test]
fn base64_matches_standard_alphabet() {
    assert_eq!(base64_encode(b""), "");
    assert_eq!(base64_encode(b"f"), "Zg==");
    assert_eq!(base64_encode(b"fo"), "Zm8=");
    assert_eq!(base64_encode(b"foo"), "Zm9v");
    assert_eq!(base64_encode(b"foobar"), "Zm9vYmFy");
    assert_eq!(base64_encode(&[0xff, 0xfe, 0x3e]), "//4+");
}

#[test]
fn github_repo_names() {
    assert!(is_valid_github_repo_name("my-repo_1.x"));
    assert!(!is_valid_github_repo_name(""));
    assert!(!is_valid_github_repo_name(".hidden"));
    assert!(!is_valid_github_repo_name("a b"));
}

#[test]
fn sort_order_alternates() {
    assert_eq!(SortOrder::Alphabetical.next(), SortOrder::DirtyFirst);
    assert_eq!(SortOrder::DirtyFirst.next(), SortOrder::Alphabetical);
}

#[test]
fn explains_auth_and_network_failures() {
    let m = explain_git_failure("remote: Permission denied to bob");
    assert!(m.starts_with("remote: Permission denied to bob. Authentication"));
    let n = explain_git_failure("fatal: Could not resolve host: github.com");
    assert_eq!(n, "fatal: Could not resolve host: github.com. Network access failed; check your connection or remote URL.");
    assert_eq!(explain_git_failure("other"), "other");
}

#[test]
fn diff_texts_fall_back() {
    assert_eq!(file_diff_text(Ok(String::new()), String::new()), "(no diff available)");
    assert_eq!(file_diff_text(Ok(String::new()), "+new".to_string()), "+new");
    assert_eq!(file_diff_text(Err("boom".to_string()), String::new()), "Failed to get diff: boom");
    assert_eq!(submodule_diff_text(Ok(String::new()), String::new()), "(no changes detected)");
    assert_eq!(submodule_diff_text(Ok("d".to_string()), "s".to_string()), "d");
}

#[test]
fn header_and_short_oid() {
    assert_eq!(section_header("T"), format!("T\n{}\n", "─".repeat(40)));
    assert_eq!(short_oid("0123456789"), "0123456");
    assert_eq!(short_oid("abc"), "abc");
    assert_eq!(git_args(&vec!["push", "-u"]), vec!["push".to_string(), "-u".to_string()]);
}

#[test]
fn excluded_repos_and_watch_paths() {
    let ex = vec!["node_modules".to_string(), "/vendor/".to_string()];
    assert!(is_excluded_repo("/x/node_modules", &ex));
    assert!(is_excluded_repo("/a/vendor/b", &ex));
    assert!(!is_excluded_repo("/a/b", &ex));
    assert!(contains_excluded_component("/a/node_modules/x", &ex));
    assert!(!contains_excluded_component("/a/node_modulesx", &ex));
    assert!(is_git_path("/r/.git/HEAD"));
    assert!(!is_git_path("/r/src/x.git"));
    assert!(is_meaningful_git_event("/r/.git/HEAD"));
    assert!(is_meaningful_git_event("/r/.git/refs/heads/main"));
    assert!(!is_meaningful_git_event("/r/.git/objects/ab/cd"));
}

#[test]
fn pinned_repos_come_first_in_name_order() {
    let mut repos = vec!["/r/zeta".to_string(), "/r/Alpha".to_string(), "/r/beta".to_string()];
    sort_repos_with_pinned_first(&mut repos, &vec!["/r/zeta".to_string()]);
    assert_eq!(repos, vec!["/r/zeta", "/r/Alpha", "/r/beta"]);
    let mut repos = vec!["/r/zeta".to_string(), "/r/Alpha".to_string()];
    sort_repos_with_pinned_first(&mut repos, &Vec::new());
    assert_eq!(repos, vec!["/r/Alpha", "/r/zeta"]);
}

#[test]
fn strings_sort_and_cache_key() {
    assert_eq!(sort_strings(vec!["b".to_string(), "B".to_string(), "a".to_string()]), vec!["B", "a", "b"]);
    assert_eq!(sorted_cache_key(vec!["z:1".to_string(), "a:2".to_string()]), "a:2|z:1");
    assert_eq!(sorted_cache_key(Vec::new()), "");
}

#[test]
fn list_selection_moves() {
    assert_eq!(select_next(Some(1), 3), Some(2));
    assert_eq!(select_next(Some(2), 3), Some(2));
    assert_eq!(select_next(None, 3), Some(0));
    assert_eq!(select_prev(Some(0), 3), Some(0));
    assert_eq!(select_prev(Some(5), 0), Some(5));
    assert_eq!(preserve_or_first(Some(9), 3), Some(2));
    assert_eq!(preserve_or_first(Some(1), 0), None);
    let sel = vec![false, true, false, true];
    assert_eq!(select_next_matching(Some(1), 4, &sel), Some(3));
    assert_eq!(select_next_matching(Some(3), 4, &sel), Some(3));
    assert_eq!(select_prev_matching(Some(3), 4, &sel), Some(1));
    assert_eq!(select_prev_matching(Some(1), 4, &sel), Some(1));
}

#[test]
fn clicks_and_modals() {
    let area = Area { x: 2, y: 1, width: 10, height: 5 };
    assert_eq!(clicked_list_index(area, 3, 2, 0, 4), Some(0));
    assert_eq!(clicked_list_index(area, 3, 4, 1, 4), Some(3));
    assert_eq!(clicked_list_index(area, 3, 5, 1, 4), None);
    assert_eq!(clicked_list_index(area, 12, 2, 0, 4), None);
    let m = modal_rect(Area { x: 0, y: 0, width: 100, height: 40 }, 72, 20, 9, 5);
    assert_eq!(m, Area { x: 14, y: 15, width: 72, height: 9 });
}

/// Directories of `tree` (relative paths, parents first) that a pruning walk
/// from `root` keeps.
fn pruned_walk(root: &str, tree: &[&str], excludes: &Vec<String>) -> Vec<String> {
    let mut kept: Vec<String> = Vec::new();
    for rel in tree {
        let parts: Vec<&str> = rel.split('/').collect();
        let parent = parts[..parts.len() - 1].join("/");
        if !parent.is_empty() && !kept.contains(&parent) {
            continue;
        }
        let name = parts[parts.len() - 1];
        let full = format!("{root}/{rel}");
        if keep_dir(parts.len(), true, &full, name, excludes) {
            kept.push(rel.to_string());
        }
    }
    kept
}

#[test]
fn keep_dir_prunes_excluded_and_git_internals() {
    let tree = [
        "node_modules",
        "node_modules/deep",
        "node_modules/deep/nested",
        "src",
        "src/app",
        ".git",
        ".git/objects",
        ".git/objects/ab",
        ".git/hooks",
        ".git/refs",
        ".git/refs/heads",
    ];
    let excludes = vec!["node_modules".to_string()];
    assert!(keep_dir(0, true, "/tmp/gitoto_watch_keep_dir_test", "gitoto_watch_keep_dir_test", &excludes));
    let watched = pruned_walk("/tmp/gitoto_watch_keep_dir_test", &tree, &excludes);

    assert!(!watched.iter().any(|p| p.contains("node_modules")));
    assert!(!watched.iter().any(|p| p.contains("objects")));
    assert!(!watched.iter().any(|p| p.ends_with("hooks")));
    assert!(watched.iter().any(|p| p.contains("refs")));
    assert!(watched.iter().any(|p| p == "src/app"));
}

#[test]
fn keep_dir_keeps_files_and_the_root() {
    let excludes = vec!["target".to_string()];
    assert!(keep_dir(2, false, "/r/target", "target", &excludes));
    assert!(keep_dir(0, true, "/r/target", "target", &excludes));
    assert!(!keep_dir(1, true, "/r/target", "target", &excludes));
    assert!(keep_dir(2, true, "/r/.git/logs", "logs", &excludes));
    assert!(!keep_dir(2, true, "/r/.git/lfs", "lfs", &excludes));
}

#[test]
fn changed_files_name_their_repositories_once() {
    let repos = vec!["/w/app".to_string(), "/w/lib".to_string()];
    let exclude = vec!["node_modules".to_string()];
    let changed = vec![
        "/w/app/src/main.rs".to_string(),
        "/w/lib/.git/objects/ab/cd".to_string(),
        "/w/app/README.md".to_string(),
        "/w/application/x".to_string(),
        "/w/lib/node_modules/p/index.js".to_string(),
        "/w/lib/.git/HEAD".to_string(),
        "/elsewhere/f".to_string(),
    ];
    assert_eq!(changed_repos(&changed, &repos, &exclude), vec!["/w/app".to_string(), "/w/lib".to_string()]);
    assert!(changed_repos(&vec!["/w/lib/.git/index.lock".to_string()], &repos, &exclude).is_empty());
}
