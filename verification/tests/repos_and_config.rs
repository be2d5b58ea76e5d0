use gitoto::config::{BranchFilter, Config, RepoNameFormat, UpdatePosition};
use gitoto::remote::{github_repo_name_from_web_url, github_url_from_remotes, github_web_url_from_remote, RemoteUrls};
use gitoto::repo::{RepoEntry, RepoList};
use gitoto::status::{FileStatus, RepoStatus, SubmoduleFlags, SubmoduleState, StatusFlags};
use git2::SubmoduleStatus;

fn entry(path: &str, github_url: Option<&str>) -> RepoEntry {
    RepoEntry {
        path: path.to_string(),
        name: std::path::PathBuf::from(path).file_name().unwrap().to_string_lossy().to_string(),
        status: github_url.map(|url| RepoStatus {
            branch: "main".to_string(),
            files: Vec::new(),
            ahead: 0,
            behind: 0,
            has_upstream: false,
            is_dirty: false,
            worktree_info: Vec::new(),
            has_submodules: false,
            submodules: Vec::new(),
            has_dirty_submodules: false,
            fetch_failed: false,
            has_github_remote: true,
            github_url: Some(url.to_string()),
            has_origin_remote: true,
            graph_key: String::new(),
            remote_key: String::new(),
        }),
        git_op: false,
    }
}

#[test]
fn display_name_uses_folder_and_github_repo() {
    let entry = entry("/home/me/015_gitoto", Some("https://github.com/me/gitoto"));
    assert_eq!(entry.display_name(), "015_gitoto:gitoto");
}

#[test]
fn display_name_folder_github_falls_back_to_folder() {
    let entry = entry("/home/me/015_gitoto", None);
    assert_eq!(entry.display_name_for_format(RepoNameFormat::FolderGithub, false), "015_gitoto");
}

#[test]
fn display_name_parent_folder_format() {
    let entry = entry("/home/me/projects/015_gitoto", None);
    assert_eq!(entry.display_name_for_format(RepoNameFormat::ParentFolder, false), "projects:015_gitoto");
}

#[test]
fn display_name_duplicate_folder_uses_parent_fallback() {
    let list = RepoList::new(
        vec!["/home/me/work/app".to_string(), "/home/me/archive/app".to_string()],
        false,
        RepoNameFormat::FolderGithub,
    );
    assert_eq!(list.display_name_for_index(0).as_deref(), Some("work:app"));
    assert_eq!(list.display_name_for_index(1).as_deref(), Some("archive:app"));
}

#[test]
fn display_name_duplicate_cache_updates_after_remove() {
    let mut list = RepoList::new(
        vec!["/home/me/work/app".to_string(), "/home/me/archive/app".to_string()],
        false,
        RepoNameFormat::FolderGithub,
    );
    list.remove_repo(1);
    assert_eq!(list.display_name_for_index(0).as_deref(), Some("app"));
}

#[test]
fn test_default_config_has_code_root() {
    let config = Config::default();
    assert!(!config.root_dirs.is_empty());
    let first = &config.root_dirs[0];
    assert!(std::path::Path::new(first).ends_with("Code"));
}

#[test]
fn test_default_scan_depth_supports_third_level_git_dirs() {
    let config = Config::default();
    assert_eq!(config.scan_depth, 3);
}

#[test]
fn test_cli_root_overrides_config() {
    let mut config = Config::default();
    config.override_root("/tmp/my-repos".to_string());
    assert_eq!(config.root_dirs, vec!["/tmp/my-repos".to_string()]);
}

#[test]
fn test_add_pinned_repo_deduplication() {
    let mut config = Config::default();
    config.add_pinned_repo("/tmp/repo-a".to_string());
    config.add_pinned_repo("/tmp/repo-a".to_string());
    config.add_pinned_repo("/tmp/repo-b".to_string());
    assert_eq!(config.pinned_repos.len(), 2);
}

#[test]
fn test_status_maps_correctly() {
    for (status, label) in [
        (FileStatus::Modified, "M"),
        (FileStatus::Added, "A"),
        (FileStatus::Deleted, "D"),
        (FileStatus::Renamed, "R"),
        (FileStatus::Untracked, "?"),
        (FileStatus::Conflicted, "C"),
    ] {
        assert_eq!(status.label(), label);
    }
}

fn submodule_flags(s: SubmoduleStatus) -> SubmoduleFlags {
    SubmoduleFlags {
        wd_uninitialized: s.is_wd_uninitialized(),
        wd_wd_modified: s.is_wd_wd_modified(),
        wd_untracked: s.contains(SubmoduleStatus::WD_UNTRACKED),
        wd_modified: s.is_wd_modified(),
        wd_index_modified: s.contains(SubmoduleStatus::WD_INDEX_MODIFIED),
    }
}

#[test]
fn test_submodule_state_mapping() {
    for (git_status, state) in [
        (SubmoduleStatus::WD_UNINITIALIZED, SubmoduleState::Uninitialized),
        (SubmoduleStatus::WD_WD_MODIFIED, SubmoduleState::Dirty),
        (SubmoduleStatus::WD_UNTRACKED, SubmoduleState::Dirty),
        (SubmoduleStatus::WD_MODIFIED, SubmoduleState::Modified),
        (SubmoduleStatus::WD_INDEX_MODIFIED, SubmoduleState::Modified),
        (SubmoduleStatus::WD_UNINITIALIZED | SubmoduleStatus::WD_MODIFIED, SubmoduleState::Uninitialized),
        (SubmoduleStatus::WD_WD_MODIFIED | SubmoduleStatus::WD_MODIFIED, SubmoduleState::Dirty),
    ] {
        assert_eq!(SubmoduleState::from_git_status(submodule_flags(git_status)), Some(state));
    }
}

fn no_flags() -> StatusFlags {
    StatusFlags {
        conflicted: false,
        index_new: false,
        wt_new: false,
        index_deleted: false,
        wt_deleted: false,
        index_renamed: false,
        wt_renamed: false,
        index_modified: false,
        wt_modified: false,
    }
}

#[test]
fn file_status_priorities() {
    assert_eq!(FileStatus::from_git_status(no_flags()), None);
    assert_eq!(FileStatus::from_git_status(StatusFlags { wt_new: true, ..no_flags() }), Some(FileStatus::Untracked));
    assert_eq!(
        FileStatus::from_git_status(StatusFlags { wt_new: true, index_new: true, ..no_flags() }),
        Some(FileStatus::Added)
    );
    assert_eq!(
        FileStatus::from_git_status(StatusFlags { conflicted: true, wt_modified: true, ..no_flags() }),
        Some(FileStatus::Conflicted)
    );
    assert_eq!(
        FileStatus::from_git_status(StatusFlags { wt_deleted: true, wt_modified: true, ..no_flags() }),
        Some(FileStatus::Deleted)
    );
}

fn assert_remote_url(remote: &str, hosts: &[&str], expected: Option<&str>) {
    let hosts = hosts.iter().map(|host| (*host).to_string()).collect::<Vec<_>>();
    assert_eq!(github_web_url_from_remote(remote, &hosts).as_deref(), expected);
}

#[test]
fn test_github_remote_url_parsing() {
    for remote in [
        "git@github.com:owner/repo.git",
        "https://github.com/owner/repo.git",
        "ssh://git@github.com/owner/repo.git",
        "git+ssh://git@github.com/owner/repo.git",
        "ssh://deploy@github.com:22/owner/repo.git",
        "github.com:owner/repo.git",
    ] {
        assert_remote_url(remote, &["github.com"], Some("https://github.com/owner/repo"));
    }
    assert_remote_url("git@example.com:owner/repo.git", &["github.com"], None);
    assert_remote_url("https://github.com/owner/re&po.git", &["github.com"], None);
    assert_remote_url("git@github.com:own er/repo.git", &["github.com"], None);
}

#[test]
fn test_github_enterprise_remote_url_parsing() {
    assert_remote_url("git@git.example.com:team/repo.git", &["git.example.com"], Some("https://git.example.com/team/repo"));
    assert_remote_url("https://github.com/team/repo.git", &["git.example.com"], None);
}

#[test]
fn test_github_repo_name_from_web_url() {
    assert_eq!(github_repo_name_from_web_url("https://github.com/owner/repo").as_deref(), Some("repo"));
    assert_eq!(github_repo_name_from_web_url("https://github.com/owner/repo/").as_deref(), Some("repo"));
    assert_eq!(github_repo_name_from_web_url(""), None);
}

#[test]
fn remote_url_host_matching_ignores_case_scheme_and_port() {
    assert_remote_url("git@GitHub.COM:o/r", &["https://github.com:443/"], Some("https://GitHub.COM/o/r"));
    assert_remote_url("https://github.com/o/r.git?x=1#y", &["github.com"], Some("https://github.com/o/r"));
    assert_remote_url("https://github.com/o", &["github.com"], None);
}

#[test]
fn push_url_is_preferred_over_fetch_url() {
    let hosts = vec!["github.com".to_string()];
    let remotes = vec![
        RemoteUrls { push_url: Some("DISABLED".to_string()), url: Some("https://github.com/o/a.git".to_string()) },
        RemoteUrls { push_url: None, url: Some("https://github.com/o/b.git".to_string()) },
    ];
    assert_eq!(github_url_from_remotes(&remotes, &hosts).as_deref(), Some("https://github.com/o/b"));
}

#[test]
fn display_name_path_format_and_folder_format() {
    let e = entry("/home/me/x/app", Some("https://github.com/me/other"));
    assert_eq!(e.display_name_for_format(RepoNameFormat::Path, false), "/home/me/x/app");
    assert_eq!(e.display_name_for_format(RepoNameFormat::Folder, true), "app");
    assert_eq!(e.display_name_for_format(RepoNameFormat::FolderGithub, true), "app:other");
}

#[test]
fn sort_alphabetical_ignores_case_and_is_stable() {
    let mut list = RepoList::new(
        vec!["/r/b".to_string(), "/r/A".to_string(), "/x/a".to_string()],
        false,
        RepoNameFormat::Folder,
    );
    list.sort_alphabetical();
    let names: Vec<&str> = list.repos.iter().map(|e| e.path.as_str()).collect();
    assert_eq!(names, vec!["/r/A", "/x/a", "/r/b"]);
}

#[test]
fn sort_dirty_first_puts_dirty_repos_on_top() {
    let mut list = RepoList::new(vec!["/r/a".to_string(), "/r/b".to_string()], false, RepoNameFormat::Folder);
    let mut st = entry("/r/b", Some("https://github.com/o/b")).status.unwrap();
    st.is_dirty = true;
    list.update_status(1, st);
    list.sort_dirty_first();
    assert_eq!(list.repos[0].path, "/r/b");
}

#[test]
fn expand_tildes_with_resolves_home() {
    let mut config = Config::default();
    config.root_dirs = vec!["~/src".to_string(), "/abs".to_string(), "~".to_string(), "~x".to_string()];
    config.pinned_repos = vec!["~//p/".to_string()];
    config.expand_tildes_with("/home/u");
    assert_eq!(config.root_dirs, vec!["/home/u/src", "/abs", "/home/u/", "~x"]);
    assert_eq!(config.pinned_repos, vec!["/home/u/p"]);
}

#[test]
fn default_graph_and_ui_settings() {
    let config = Config::default();
    assert_eq!(config.graph.branches, BranchFilter::All);
    assert_eq!(config.graph.label_max_len, 24);
    assert!(config.graph.show_stats);
    assert!(!config.ui.check_for_updates);
    assert_eq!(config.ui.update_position, UpdatePosition::TopRight);
    assert_eq!(config.github.hosts, vec!["github.com".to_string()]);
}

#[test]
fn default_watch_submodule_and_commit_settings() {
    let config = Config::default();
    assert!(!config.submodules.ignore_dirty);
    assert!(!config.commit.skip_hooks);
    assert_eq!(config.watch.max_concurrent_polls, 4);
    assert_eq!(config.watch.poll_local_full_every, 12);
    for dir in ["node_modules", "target", ".next"] {
        assert!(config.watch.watch_exclude_dirs.contains(&dir.to_string()));
    }
}

#[test]
fn test_github_remote_url_ignores_fetch_only_remotes() {
    let hosts = vec!["github.com".to_string()];
    let mut remotes = vec![RemoteUrls {
        push_url: Some("DISABLED".to_string()),
        url: Some("https://github.com/owner/GenesisOne.git".to_string()),
    }];
    assert_eq!(github_url_from_remotes(&remotes, &hosts), None);

    remotes.push(RemoteUrls { push_url: None, url: Some("https://github.com/owner/BiteMoment.git".to_string()) });
    assert_eq!(github_url_from_remotes(&remotes, &hosts).as_deref(), Some("https://github.com/owner/BiteMoment"));
}

#[test]
fn sorting_a_sorted_list_again_changes_nothing() {
    let mut list = RepoList::new(
        vec!["/r/b".to_string(), "/r/A".to_string(), "/x/a".to_string(), "/y/c".to_string()],
        false,
        RepoNameFormat::Folder,
    );
    list.sort_alphabetical();
    let once: Vec<String> = list.repos.iter().map(|e| e.path.clone()).collect();
    list.sort_alphabetical();
    let twice: Vec<String> = list.repos.iter().map(|e| e.path.clone()).collect();
    assert_eq!(once, twice);
}
