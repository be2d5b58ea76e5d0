//! User configuration: scanned roots, pinned repositories and the settings
//! of each part of the interface, with their defaults.
use vstd::prelude::*;
use crate::paths::{expand_config_dir, expand_config_dir_spec, join_path, join_spec};
use crate::status::UntrackedMode;
use crate::text::{contains_string, owned, string_views};

verus! {

/// Corner of the screen where an available update is announced.
#[derive(Clone, Copy, Debug, PartialEq, Eq, Structural)]
pub enum UpdatePosition {
    TopRight,
    TopLeft,
}

impl Default for UpdatePosition {
    fn default() -> (r: Self)
        ensures
            r == UpdatePosition::TopRight,
    {
        UpdatePosition::TopRight
    }
}

/// How repositories are named in the list.
#[derive(Clone, Copy, Debug, PartialEq, Eq, Structural)]
pub enum RepoNameFormat {
    /// `folder:github-repo` for GitHub repositories, else the folder.
    FolderGithub,
    /// The local folder name.
    Folder,
    /// `parent-folder:folder`.
    ParentFolder,
    /// The full local path.
    Path,
}

impl Default for RepoNameFormat {
    fn default() -> (r: Self)
        ensures
            r == RepoNameFormat::FolderGithub,
    {
        RepoNameFormat::FolderGithub
    }
}

/// Which branch labels the commit graph shows.
#[derive(Clone, Copy, Debug, PartialEq, Eq, Structural)]
pub enum BranchFilter {
    All,
    Local,
    Remote,
    /// No labels (the configuration spells it `none`).
    Off,
}

impl Default for BranchFilter {
    fn default() -> (r: Self)
        ensures
            r == BranchFilter::All,
    {
        BranchFilter::All
    }
}

/// File-watching and polling settings.
#[derive(Debug)]
pub struct WatchConfig {
    pub debounce_ms: u64,
    /// Seconds between local status polls.
    pub poll_local_secs: u64,
    /// Seconds between remote fetch polls.
    pub poll_fetch_secs: u64,
    /// Most poll tasks run at once.
    pub max_concurrent_polls: usize,
    /// Every this many local polls scan all repositories.
    pub poll_local_full_every: usize,
    /// Directory names whose events are ignored.
    pub watch_exclude_dirs: Vec<String>,
}

/// Interface settings.
#[derive(Debug)]
pub struct UiConfig {
    pub frame_rate: u16,
    pub check_for_updates: bool,
    pub update_position: UpdatePosition,
    pub repo_name_format: RepoNameFormat,
}

/// Hosts treated as GitHub.
#[derive(Debug)]
pub struct GitHubConfig {
    pub hosts: Vec<String>,
}

/// Commit-graph settings.
#[derive(Debug)]
pub struct GraphConfig {
    pub branches: BranchFilter,
    pub label_max_len: usize,
    pub show_stats: bool,
}

/// Submodule settings.
#[derive(Debug)]
pub struct SubmoduleConfig {
    pub ignore_dirty: bool,
}

/// Commit settings.
#[derive(Debug)]
pub struct CommitConfig {
    /// Skip repository hooks when committing.
    pub skip_hooks: bool,
}

/// Status-scan settings.
#[derive(Debug)]
pub struct StatusConfig {
    pub untracked: UntrackedMode,
}

/// Performance settings.
#[derive(Debug)]
pub struct PerformanceConfig {
    /// Start without fetch polling, graph diff stats or untracked scans.
    pub fast_mode: bool,
}

/// The whole configuration.
#[derive(Debug)]
pub struct Config {
    pub root_dirs: Vec<String>,
    pub excluded_repos: Vec<String>,
    pub pinned_repos: Vec<String>,
    pub scan_depth: usize,
    pub watch: WatchConfig,
    pub ui: UiConfig,
    pub github: GitHubConfig,
    pub graph: GraphConfig,
    pub submodules: SubmoduleConfig,
    pub commit: CommitConfig,
    pub status: StatusConfig,
    pub performance: PerformanceConfig,
}

/// The home directory of the current user.
///
/// Trusted: calls `dirs::home_dir` and converts the path to text. The result
/// depends on the environment, so nothing is claimed of it.
#[verifier::external_body]
pub(crate) fn home_dir() -> (r: Option<String>) {
    dirs::home_dir().map(|p| p.to_string_lossy().into_owned())
}

pub fn default_show_stats() -> (r: bool)
    ensures
        r,
{
    true
}

pub fn default_label_max_len() -> (r: usize)
    ensures
        r == 24,
{
    24
}

pub fn default_scan_depth() -> (r: usize)
    ensures
        r == 3,
{
    3
}

pub fn default_debounce_ms() -> (r: u64)
    ensures
        r == 500,
{
    500
}

pub fn default_poll_local_secs() -> (r: u64)
    ensures
        r == 5,
{
    5
}

pub fn default_poll_fetch_secs() -> (r: u64)
    ensures
        r == 30,
{
    30
}

pub fn default_max_concurrent_polls() -> (r: usize)
    ensures
        r == 4,
{
    4
}

pub fn default_poll_local_full_every() -> (r: usize)
    ensures
        r == 12,
{
    12
}

pub fn default_frame_rate() -> (r: u16)
    ensures
        r == 10,
{
    10
}

pub fn default_check_for_updates() -> (r: bool)
    ensures
        !r,
{
    false
}

/// Directory names ignored by the watcher unless configured otherwise.
pub open spec fn default_watch_exclude_spec() -> Seq<Seq<char>> {
    seq![
        "node_modules"@,
        "target"@,
        ".build"@,
        "dist"@,
        "vendor"@,
        ".venv"@,
        "__pycache__"@,
        ".next"@,
        "Pods"@,
    ]
}

pub fn default_watch_exclude_dirs() -> (r: Vec<String>)
    ensures
        string_views(r@) == default_watch_exclude_spec(),
{
    let r = vec![
        owned("node_modules"),
        owned("target"),
        owned(".build"),
        owned("dist"),
        owned("vendor"),
        owned(".venv"),
        owned("__pycache__"),
        owned(".next"),
        owned("Pods"),
    ];
    assert(string_views(r@) =~= default_watch_exclude_spec());
    r
}

pub fn default_github_hosts() -> (r: Vec<String>)
    ensures
        string_views(r@) == seq!["github.com"@],
{
    let r = vec![owned("github.com")];
    assert(string_views(r@) =~= seq!["github.com"@]);
    r
}

/// Roots scanned by default: `Code` under the home directory, if known.
pub open spec fn root_dirs_for_home_spec(home: Option<Seq<char>>) -> Seq<Seq<char>> {
    match home {
        Some(h) => seq![join_spec(h, "Code"@)],
        None => Seq::empty(),
    }
}

/// Default roots for the given home directory.
pub fn root_dirs_for_home(home: Option<String>) -> (r: Vec<String>)
    ensures
        string_views(r@) == root_dirs_for_home_spec(match home {
            Some(h) => Some(h@),
            None => None,
        }),
{
    match home {
        Some(h) => {
            let r = vec![join_path(h.as_str(), "Code")];
            assert(string_views(r@) =~= seq![join_spec(h@, "Code"@)]);
            r
        },
        None => {
            let r: Vec<String> = Vec::new();
            assert(string_views(r@) =~= Seq::<Seq<char>>::empty());
            r
        },
    }
}

/// Default roots: `Code` under the current user's home directory.
pub fn default_root_dirs() -> (r: Vec<String>)
    ensures
        exists|h: Option<Seq<char>>| string_views(r@) == root_dirs_for_home_spec(h),
{
    let home = home_dir();
    let ghost h = match &home {
        Some(x) => Some(x@),
        None => None,
    };
    let r = root_dirs_for_home(home);
    assert(string_views(r@) == root_dirs_for_home_spec(h));
    r
}

impl Default for WatchConfig {
    fn default() -> (r: Self)
        ensures
            r.debounce_ms == 500,
            r.poll_local_secs == 5,
            r.poll_fetch_secs == 30,
            r.max_concurrent_polls == 4,
            r.poll_local_full_every == 12,
            string_views(r.watch_exclude_dirs@) == default_watch_exclude_spec(),
    {
        WatchConfig {
            debounce_ms: default_debounce_ms(),
            poll_local_secs: default_poll_local_secs(),
            poll_fetch_secs: default_poll_fetch_secs(),
            max_concurrent_polls: default_max_concurrent_polls(),
            poll_local_full_every: default_poll_local_full_every(),
            watch_exclude_dirs: default_watch_exclude_dirs(),
        }
    }
}

impl Default for UiConfig {
    fn default() -> (r: Self)
        ensures
            r.frame_rate == 10,
            !r.check_for_updates,
            r.update_position == UpdatePosition::TopRight,
            r.repo_name_format == RepoNameFormat::FolderGithub,
    {
        UiConfig {
            frame_rate: default_frame_rate(),
            check_for_updates: default_check_for_updates(),
            update_position: UpdatePosition::default(),
            repo_name_format: RepoNameFormat::default(),
        }
    }
}

impl Default for GitHubConfig {
    fn default() -> (r: Self)
        ensures
            string_views(r.hosts@) == seq!["github.com"@],
    {
        GitHubConfig { hosts: default_github_hosts() }
    }
}

impl Default for GraphConfig {
    fn default() -> (r: Self)
        ensures
            r.branches == BranchFilter::All,
            r.label_max_len == 24,
            r.show_stats,
    {
        GraphConfig {
            branches: BranchFilter::default(),
            label_max_len: default_label_max_len(),
            show_stats: default_show_stats(),
        }
    }
}

impl Default for SubmoduleConfig {
    fn default() -> (r: Self)
        ensures
            !r.ignore_dirty,
    {
        SubmoduleConfig { ignore_dirty: false }
    }
}

impl Default for CommitConfig {
    fn default() -> (r: Self)
        ensures
            !r.skip_hooks,
    {
        CommitConfig { skip_hooks: false }
    }
}

impl Default for StatusConfig {
    fn default() -> (r: Self)
        ensures
            r.untracked == UntrackedMode::All,
    {
        StatusConfig { untracked: UntrackedMode::default() }
    }
}

impl Default for PerformanceConfig {
    fn default() -> (r: Self)
        ensures
            !r.fast_mode,
    {
        PerformanceConfig { fast_mode: false }
    }
}

impl Default for Config {
    /// The configuration written on first start.
    fn default() -> (r: Self)
        ensures
            exists|h: Option<Seq<char>>| string_views(r.root_dirs@) == root_dirs_for_home_spec(h),
            string_views(r.excluded_repos@) == seq!["node_modules"@, ".cargo"@],
            r.pinned_repos@.len() == 0,
            r.scan_depth == 3,
            r.watch.debounce_ms == 500,
            r.watch.poll_local_secs == 5,
            r.watch.poll_fetch_secs == 30,
            r.watch.max_concurrent_polls == 4,
            r.watch.poll_local_full_every == 12,
            string_views(r.watch.watch_exclude_dirs@) == default_watch_exclude_spec(),
            r.ui.frame_rate == 10,
            !r.ui.check_for_updates,
            r.ui.update_position == UpdatePosition::TopRight,
            r.ui.repo_name_format == RepoNameFormat::FolderGithub,
            string_views(r.github.hosts@) == seq!["github.com"@],
            r.graph.branches == BranchFilter::All,
            r.graph.label_max_len == 24,
            r.graph.show_stats,
            !r.submodules.ignore_dirty,
            !r.commit.skip_hooks,
            r.status.untracked == UntrackedMode::All,
            !r.performance.fast_mode,
    {
        let excluded = vec![owned("node_modules"), owned(".cargo")];
        assert(string_views(excluded@) =~= seq!["node_modules"@, ".cargo"@]);
        Config {
            root_dirs: default_root_dirs(),
            excluded_repos: excluded,
            pinned_repos: Vec::new(),
            scan_depth: default_scan_depth(),
            watch: WatchConfig::default(),
            ui: UiConfig::default(),
            github: GitHubConfig::default(),
            graph: GraphConfig::default(),
            submodules: SubmoduleConfig::default(),
            commit: CommitConfig::default(),
            status: StatusConfig::default(),
            performance: PerformanceConfig::default(),
        }
    }
}

/// Every directory of `dirs` with its leading `~` resolved against `home`.
pub open spec fn expanded_dirs(dirs: Seq<Seq<char>>, home: Seq<char>) -> Seq<Seq<char>> {
    dirs.map_values(|d: Seq<char>| expand_config_dir_spec(d, home))
}

fn expand_all(dirs: &Vec<String>, home: &str) -> (r: Vec<String>)
    ensures
        string_views(r@) == expanded_dirs(string_views(dirs@), home@),
{
    let mut r: Vec<String> = Vec::new();
    let mut i: usize = 0;
    while i < dirs.len()
        invariant
            i <= dirs@.len(),
            r@.len() == i,
            forall|j: int| 0 <= j < i ==> #[trigger] r@[j]@ == expand_config_dir_spec(dirs@[j]@, home@),
        decreases dirs@.len() - i,
    {
        let e = expand_config_dir(dirs[i].as_str(), home);
        r.push(e);
        i = i + 1;
    }
    assert(string_views(r@) =~= expanded_dirs(string_views(dirs@), home@));
    r
}

impl Config {
    /// Forgets the repository at `path`: it is unpinned, and its `name` is
    /// excluded from later scans (once).
    pub fn forget_repo(&mut self, path: &str, name: String)
        ensures
            string_views(final(self).pinned_repos@) == string_views(old(self).pinned_repos@).filter(
                crate::file_list::other_than(path@),
            ),
            string_views(final(self).excluded_repos@) == if string_views(old(self).excluded_repos@).contains(name@) {
                string_views(old(self).excluded_repos@)
            } else {
                string_views(old(self).excluded_repos@).push(name@)
            },
            *final(self) == (Config {
                pinned_repos: final(self).pinned_repos,
                excluded_repos: final(self).excluded_repos,
                ..*old(self)
            }),
    {
        let ghost pred = crate::file_list::other_than(path@);
        let mut kept: Vec<String> = Vec::new();
        let mut i: usize = 0;
        while i < self.pinned_repos.len()
            invariant
                i <= self.pinned_repos@.len(),
                *self == *old(self),
                pred == crate::file_list::other_than(path@),
                string_views(kept@) == string_views(self.pinned_repos@.take(i as int)).filter(pred),
            decreases self.pinned_repos@.len() - i,
        {
            proof {
                let a = self.pinned_repos@.take(i as int);
                let x = self.pinned_repos@[i as int];
                assert(self.pinned_repos@.take(i + 1) =~= a.push(x));
                assert(string_views(a.push(x)) =~= string_views(a).push(x@));
                string_views(a).lemma_filter_push(x@, pred);
            }
            if !crate::text::str_eq(self.pinned_repos[i].as_str(), path) {
                kept.push(self.pinned_repos[i].clone());
                assert(string_views(kept@) =~= string_views(self.pinned_repos@.take(i as int)).filter(pred).push(
                    self.pinned_repos@[i as int]@,
                ));
            }
            i = i + 1;
        }
        assert(self.pinned_repos@.take(i as int) =~= self.pinned_repos@);
        self.pinned_repos = kept;
        if !contains_string(&self.excluded_repos, name.as_str()) {
            let ghost before = string_views(self.excluded_repos@);
            self.excluded_repos.push(name);
            assert(string_views(self.excluded_repos@) =~= before.push(name@));
        }
    }

    /// Pins a repository; a path already pinned is not added twice.
    pub fn add_pinned_repo(&mut self, path: String)
        ensures
            string_views(final(self).pinned_repos@) == if string_views(old(self).pinned_repos@).contains(path@) {
                string_views(old(self).pinned_repos@)
            } else {
                string_views(old(self).pinned_repos@).push(path@)
            },
            *final(self) == (Config { pinned_repos: final(self).pinned_repos, ..*old(self) }),
    {
        if !contains_string(&self.pinned_repos, path.as_str()) {
            self.pinned_repos.push(path);
            assert(string_views(self.pinned_repos@) =~= string_views(old(self).pinned_repos@).push(path@));
        }
    }

    /// Scans `root` alone, in place of the configured roots.
    pub fn override_root(&mut self, root: String)
        ensures
            final(self).root_dirs@ == seq![root],
            *final(self) == (Config { root_dirs: final(self).root_dirs, ..*old(self) }),
    {
        self.root_dirs = vec![root];
    }

    /// Resolves a leading `~` component of every root and pinned directory
    /// against `home`.
    pub fn expand_tildes_with(&mut self, home: &str)
        ensures
            string_views(final(self).root_dirs@) == expanded_dirs(string_views(old(self).root_dirs@), home@),
            string_views(final(self).pinned_repos@) == expanded_dirs(string_views(old(self).pinned_repos@), home@),
            *final(self) == (Config { root_dirs: final(self).root_dirs, pinned_repos: final(self).pinned_repos, ..*old(self) }),
    {
        let roots = expand_all(&self.root_dirs, home);
        let pinned = expand_all(&self.pinned_repos, home);
        self.root_dirs = roots;
        self.pinned_repos = pinned;
    }

    /// Resolves a leading `~` against the current user's home directory; with
    /// no known home directory nothing changes.
    pub fn expand_tildes(&mut self)
        ensures
            (final(self).root_dirs == old(self).root_dirs && final(self).pinned_repos == old(self).pinned_repos)
                || exists|h: Seq<char>|
                string_views(final(self).root_dirs@) == expanded_dirs(string_views(old(self).root_dirs@), h)
                    && string_views(final(self).pinned_repos@) == expanded_dirs(
                    string_views(old(self).pinned_repos@),
                    h,
                ),
            *final(self) == (Config { root_dirs: final(self).root_dirs, pinned_repos: final(self).pinned_repos, ..*old(self) }),
    {
        match home_dir() {
            Some(h) => self.expand_tildes_with(h.as_str()),
            None => {},
        }
    }
}

} // verus!
