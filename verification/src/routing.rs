//! Where a key press or a mouse press goes: the open dialog, the help and
//! log overlays, an application command, or the focused panel.
use vstd::prelude::*;
use crate::ui::{area_contains, area_contains_spec, Area, FocusPanel, KeyCode, KeyEvent};

verus! {

/// Pages of the key help.
pub const HELP_PAGE_COUNT: usize = 5;

/// What is on screen when a key arrives.
#[derive(Clone, Copy, Debug, PartialEq, Eq, Structural)]
pub struct KeyContext {
    pub notice_visible: bool,
    pub confirm_visible: bool,
    pub path_input_visible: bool,
    pub commit_input_visible: bool,
    pub github_input_visible: bool,
    /// The search box of the graph is open.
    pub search_visible: bool,
    pub menu_visible: bool,
    pub show_help: bool,
    pub help_page: usize,
    pub show_operation_log: bool,
    pub focus: FocusPanel,
    /// A single repository fills the workspace.
    pub focused_repo: bool,
    /// The file list shows a diff.
    pub viewing_diff: bool,
    /// The graph shows a commit's files.
    pub graph_detail: bool,
    /// A repository is focused or selected.
    pub has_active_repo: bool,
}

/// An application command bound to a key.
#[derive(Clone, Copy, Debug, PartialEq, Eq, Structural)]
pub enum AppCommand {
    RefreshAll,
    RescanRepos,
    ToggleFastMode,
    ToggleOperationLog,
    ShowGitGraph,
    OpenAddRepo,
    StartCommit,
    Push,
    Publish,
    /// Ask whether to remove the active repository from the list.
    AskRemoveRepo,
    CycleSortOrder,
    /// Copy the selection of the focused panel to the clipboard.
    CopySelection,
}

/// Where a key goes.
#[derive(Clone, Copy, Debug, PartialEq, Eq, Structural)]
pub enum KeyRoute {
    Quit,
    /// The key does nothing.
    Ignore,
    Notice,
    Confirm,
    PathInput,
    CommitInput,
    GitHubInput,
    GraphSearch,
    /// To the context menu; a key that dismisses it is routed again.
    ContextMenu,
    /// Show this help page.
    HelpPage(usize),
    CloseHelp,
    OpenHelp,
    CloseLog,
    /// To the repository list.
    Repos,
    /// To the file list.
    Changes,
    /// To the graph.
    Graph,
    /// Move the keyboard focus.
    Focus(FocusPanel),
    /// Leave the single-repository workspace for the repository list.
    LeaveRepoFocus,
    Command(AppCommand),
    /// A command that needs a repository, with none selected.
    NoRepoSelected,
}

/// Focus after Tab: the three panels in turn, or the two right-hand ones
/// in the single-repository workspace.
pub open spec fn next_focus(focus: FocusPanel, focused_repo: bool) -> FocusPanel {
    if focused_repo {
        match focus {
            FocusPanel::Changes => FocusPanel::Graph,
            _ => FocusPanel::Changes,
        }
    } else {
        match focus {
            FocusPanel::Repos => FocusPanel::Changes,
            FocusPanel::Changes => FocusPanel::Graph,
            FocusPanel::Graph => FocusPanel::Repos,
        }
    }
}

/// Focus after Shift-Tab.
pub open spec fn prev_focus(focus: FocusPanel, focused_repo: bool) -> FocusPanel {
    if focused_repo {
        match focus {
            FocusPanel::Graph => FocusPanel::Changes,
            _ => FocusPanel::Graph,
        }
    } else {
        match focus {
            FocusPanel::Repos => FocusPanel::Graph,
            FocusPanel::Changes => FocusPanel::Repos,
            FocusPanel::Graph => FocusPanel::Changes,
        }
    }
}

/// Whether the key is the character `c`.
pub open spec fn is_char(key: KeyEvent, c: char) -> bool {
    key.code == KeyCode::Char(c)
}

/// Route of a key with no dialog or overlay open.
pub open spec fn panel_route(ctx: KeyContext, key: KeyEvent) -> KeyRoute {
    if is_char(key, 'q') {
        if ctx.focus == FocusPanel::Changes && ctx.viewing_diff { KeyRoute::Changes } else { KeyRoute::Quit }
    } else if key.code == KeyCode::Esc {
        if ctx.focus == FocusPanel::Changes && ctx.viewing_diff {
            KeyRoute::Changes
        } else if ctx.focus == FocusPanel::Graph && ctx.graph_detail {
            KeyRoute::Graph
        } else if ctx.focused_repo {
            KeyRoute::LeaveRepoFocus
        } else {
            match ctx.focus {
                FocusPanel::Graph => KeyRoute::Focus(FocusPanel::Changes),
                FocusPanel::Changes => KeyRoute::Focus(FocusPanel::Repos),
                FocusPanel::Repos => KeyRoute::Quit,
            }
        }
    } else if key.code == KeyCode::Tab {
        KeyRoute::Focus(next_focus(ctx.focus, ctx.focused_repo))
    } else if key.code == KeyCode::BackTab {
        KeyRoute::Focus(prev_focus(ctx.focus, ctx.focused_repo))
    } else if is_char(key, 'r') {
        KeyRoute::Command(AppCommand::RefreshAll)
    } else if is_char(key, 'R') {
        KeyRoute::Command(AppCommand::RescanRepos)
    } else if is_char(key, 'F') {
        KeyRoute::Command(AppCommand::ToggleFastMode)
    } else if is_char(key, 'o') {
        KeyRoute::Command(AppCommand::ToggleOperationLog)
    } else if is_char(key, 'g') {
        KeyRoute::Command(AppCommand::ShowGitGraph)
    } else if is_char(key, 'a') {
        KeyRoute::Command(AppCommand::OpenAddRepo)
    } else if is_char(key, 'c') && ctx.focus != FocusPanel::Graph {
        if ctx.has_active_repo { KeyRoute::Command(AppCommand::StartCommit) } else { KeyRoute::Ignore }
    } else if is_char(key, 'p') {
        if ctx.has_active_repo { KeyRoute::Command(AppCommand::Push) } else { KeyRoute::NoRepoSelected }
    } else if is_char(key, 'P') {
        if ctx.has_active_repo { KeyRoute::Command(AppCommand::Publish) } else { KeyRoute::Ignore }
    } else if is_char(key, 'd') {
        if ctx.has_active_repo { KeyRoute::Command(AppCommand::AskRemoveRepo) } else { KeyRoute::Ignore }
    } else if is_char(key, 's') {
        KeyRoute::Command(AppCommand::CycleSortOrder)
    } else if is_char(key, 'y') {
        KeyRoute::Command(AppCommand::CopySelection)
    } else {
        match ctx.focus {
            FocusPanel::Repos => KeyRoute::Repos,
            FocusPanel::Changes => KeyRoute::Changes,
            FocusPanel::Graph => KeyRoute::Graph,
        }
    }
}

/// Route of a key: Ctrl-C quits; an open dialog takes every key, then the
/// graph's search box, then the context menu; the help overlay pages with
/// Tab/Shift-Tab and closes with Esc/`q`/`h`/`?`; `h` and `?` open it; the
/// operation log closes with Esc/`o`/`q`; then the keys of
/// [`panel_route`].
pub open spec fn key_route(ctx: KeyContext, key: KeyEvent) -> KeyRoute {
    if is_char(key, 'c') && key.ctrl {
        KeyRoute::Quit
    } else if ctx.notice_visible {
        KeyRoute::Notice
    } else if ctx.confirm_visible {
        KeyRoute::Confirm
    } else if ctx.path_input_visible {
        KeyRoute::PathInput
    } else if ctx.commit_input_visible {
        KeyRoute::CommitInput
    } else if ctx.github_input_visible {
        KeyRoute::GitHubInput
    } else if ctx.focus == FocusPanel::Graph && ctx.search_visible {
        KeyRoute::GraphSearch
    } else if ctx.menu_visible {
        KeyRoute::ContextMenu
    } else if ctx.show_help {
        if key.code == KeyCode::Tab {
            KeyRoute::HelpPage(((ctx.help_page + 1) % (HELP_PAGE_COUNT as int)) as usize)
        } else if key.code == KeyCode::BackTab {
            KeyRoute::HelpPage(((ctx.help_page + HELP_PAGE_COUNT - 1) % (HELP_PAGE_COUNT as int)) as usize)
        } else if key.code == KeyCode::Esc || is_char(key, 'q') || is_char(key, 'h') || is_char(key, '?') {
            KeyRoute::CloseHelp
        } else {
            KeyRoute::Ignore
        }
    } else if is_char(key, 'h') || is_char(key, '?') {
        KeyRoute::OpenHelp
    } else if ctx.show_operation_log {
        if key.code == KeyCode::Esc || is_char(key, 'o') || is_char(key, 'q') {
            KeyRoute::CloseLog
        } else {
            KeyRoute::Ignore
        }
    } else {
        panel_route(ctx, key)
    }
}

/// `cmd` when a repository is active, else `otherwise`.
fn needs_repo(ctx: KeyContext, cmd: AppCommand, otherwise: KeyRoute) -> (r: KeyRoute)
    ensures
        r == (if ctx.has_active_repo { KeyRoute::Command(cmd) } else { otherwise }),
{
    if ctx.has_active_repo {
        KeyRoute::Command(cmd)
    } else {
        otherwise
    }
}

/// Routes a key.
pub fn route_key(ctx: KeyContext, key: KeyEvent) -> (r: KeyRoute)
    requires
        ctx.help_page < HELP_PAGE_COUNT,
    ensures
        r == key_route(ctx, key),
{
    if key.code == KeyCode::Char('c') && key.ctrl {
        return KeyRoute::Quit;
    }
    if ctx.notice_visible {
        return KeyRoute::Notice;
    }
    if ctx.confirm_visible {
        return KeyRoute::Confirm;
    }
    if ctx.path_input_visible {
        return KeyRoute::PathInput;
    }
    if ctx.commit_input_visible {
        return KeyRoute::CommitInput;
    }
    if ctx.github_input_visible {
        return KeyRoute::GitHubInput;
    }
    if ctx.focus == FocusPanel::Graph && ctx.search_visible {
        return KeyRoute::GraphSearch;
    }
    if ctx.menu_visible {
        return KeyRoute::ContextMenu;
    }
    if ctx.show_help {
        return if key.code == KeyCode::Tab {
            KeyRoute::HelpPage((ctx.help_page + 1) % HELP_PAGE_COUNT)
        } else if key.code == KeyCode::BackTab {
            KeyRoute::HelpPage((ctx.help_page + HELP_PAGE_COUNT - 1) % HELP_PAGE_COUNT)
        } else if key.code == KeyCode::Esc || key.code == KeyCode::Char('q') || key.code == KeyCode::Char('h')
            || key.code == KeyCode::Char('?') {
            KeyRoute::CloseHelp
        } else {
            KeyRoute::Ignore
        };
    }
    if key.code == KeyCode::Char('h') || key.code == KeyCode::Char('?') {
        return KeyRoute::OpenHelp;
    }
    if ctx.show_operation_log {
        return if key.code == KeyCode::Esc || key.code == KeyCode::Char('o') || key.code == KeyCode::Char('q') {
            KeyRoute::CloseLog
        } else {
            KeyRoute::Ignore
        };
    }
    if key.code == KeyCode::Char('q') {
        return if ctx.focus == FocusPanel::Changes && ctx.viewing_diff {
            KeyRoute::Changes
        } else {
            KeyRoute::Quit
        };
    }
    if key.code == KeyCode::Esc {
        return if ctx.focus == FocusPanel::Changes && ctx.viewing_diff {
            KeyRoute::Changes
        } else if ctx.focus == FocusPanel::Graph && ctx.graph_detail {
            KeyRoute::Graph
        } else if ctx.focused_repo {
            KeyRoute::LeaveRepoFocus
        } else {
            match ctx.focus {
                FocusPanel::Graph => KeyRoute::Focus(FocusPanel::Changes),
                FocusPanel::Changes => KeyRoute::Focus(FocusPanel::Repos),
                FocusPanel::Repos => KeyRoute::Quit,
            }
        };
    }
    if key.code == KeyCode::Tab {
        let f = if ctx.focused_repo {
            match ctx.focus {
                FocusPanel::Changes => FocusPanel::Graph,
                _ => FocusPanel::Changes,
            }
        } else {
            match ctx.focus {
                FocusPanel::Repos => FocusPanel::Changes,
                FocusPanel::Changes => FocusPanel::Graph,
                FocusPanel::Graph => FocusPanel::Repos,
            }
        };
        return KeyRoute::Focus(f);
    }
    if key.code == KeyCode::BackTab {
        let f = if ctx.focused_repo {
            match ctx.focus {
                FocusPanel::Graph => FocusPanel::Changes,
                _ => FocusPanel::Graph,
            }
        } else {
            match ctx.focus {
                FocusPanel::Repos => FocusPanel::Graph,
                FocusPanel::Changes => FocusPanel::Repos,
                FocusPanel::Graph => FocusPanel::Changes,
            }
        };
        return KeyRoute::Focus(f);
    }
    match key.code {
        KeyCode::Char('r') => KeyRoute::Command(AppCommand::RefreshAll),
        KeyCode::Char('R') => KeyRoute::Command(AppCommand::RescanRepos),
        KeyCode::Char('F') => KeyRoute::Command(AppCommand::ToggleFastMode),
        KeyCode::Char('o') => KeyRoute::Command(AppCommand::ToggleOperationLog),
        KeyCode::Char('g') => KeyRoute::Command(AppCommand::ShowGitGraph),
        KeyCode::Char('a') => KeyRoute::Command(AppCommand::OpenAddRepo),
        KeyCode::Char('c') if ctx.focus != FocusPanel::Graph => needs_repo(ctx, AppCommand::StartCommit, KeyRoute::Ignore),
        KeyCode::Char('p') => needs_repo(ctx, AppCommand::Push, KeyRoute::NoRepoSelected),
        KeyCode::Char('P') => needs_repo(ctx, AppCommand::Publish, KeyRoute::Ignore),
        KeyCode::Char('d') => needs_repo(ctx, AppCommand::AskRemoveRepo, KeyRoute::Ignore),
        KeyCode::Char('s') => KeyRoute::Command(AppCommand::CycleSortOrder),
        KeyCode::Char('y') => KeyRoute::Command(AppCommand::CopySelection),
        _ => match ctx.focus {
            FocusPanel::Repos => KeyRoute::Repos,
            FocusPanel::Changes => KeyRoute::Changes,
            FocusPanel::Graph => KeyRoute::Graph,
        },
    }
}

/// Rows from a pointer row to a border row.
pub open spec fn row_distance(a: u16, b: u16) -> int {
    if a >= b { a - b } else { b - a }
}

/// Rows around a panel border where a press grabs it.
pub const GRAB_ZONE: u16 = 2;

/// Border grabbed by a press on row `row`: the upper border (0) when it is
/// within reach and not farther than the lower one in reach, else the
/// lower border (1) when within reach.
pub fn grab_border(row: u16, border1: u16, border2: u16) -> (r: Option<u8>)
    ensures
        r == (if row_distance(row, border1) <= GRAB_ZONE && (row_distance(row, border1) <= row_distance(row, border2)
            || row_distance(row, border2) > GRAB_ZONE) {
            Some(0u8)
        } else if row_distance(row, border2) <= GRAB_ZONE {
            Some(1u8)
        } else {
            None
        }),
{
    let d1 = if row >= border1 {
        row - border1
    } else {
        border1 - row
    };
    let d2 = if row >= border2 {
        row - border2
    } else {
        border2 - row
    };
    if d1 <= GRAB_ZONE && (d1 <= d2 || d2 > GRAB_ZONE) {
        Some(0)
    } else if d2 <= GRAB_ZONE {
        Some(1)
    } else {
        None
    }
}

/// Panel focused by a left press at (`col`, `row`); the repository list
/// takes no focus in the single-repository workspace.
pub fn click_focus(repos: Area, changes: Area, graph: Area, col: u16, row: u16, focused_repo: bool) -> (r: Option<
    FocusPanel,
>)
    ensures
        r == (if area_contains_spec(repos, col, row) && !focused_repo {
            Some(FocusPanel::Repos)
        } else if area_contains_spec(changes, col, row) {
            Some(FocusPanel::Changes)
        } else if area_contains_spec(graph, col, row) {
            Some(FocusPanel::Graph)
        } else {
            None
        }),
{
    if area_contains(repos, col, row) && !focused_repo {
        Some(FocusPanel::Repos)
    } else if area_contains(changes, col, row) {
        Some(FocusPanel::Changes)
    } else if area_contains(graph, col, row) {
        Some(FocusPanel::Graph)
    } else {
        None
    }
}

/// Panel that receives a mouse event at (`col`, `row`).
pub fn mouse_target(repos: Area, changes: Area, graph: Area, col: u16, row: u16) -> (r: Option<FocusPanel>)
    ensures
        r == (if area_contains_spec(repos, col, row) {
            Some(FocusPanel::Repos)
        } else if area_contains_spec(changes, col, row) {
            Some(FocusPanel::Changes)
        } else if area_contains_spec(graph, col, row) {
            Some(FocusPanel::Graph)
        } else {
            None
        }),
{
    if area_contains(repos, col, row) {
        Some(FocusPanel::Repos)
    } else if area_contains(changes, col, row) {
        Some(FocusPanel::Changes)
    } else if area_contains(graph, col, row) {
        Some(FocusPanel::Graph)
    } else {
        None
    }
}

} // verus!
