//! The context menu of a repository or a changed file.
use vstd::prelude::*;
use crate::paths::{file_name, file_name_spec};
use crate::render::{Color, Style};
use crate::repo::RepoId;
use crate::status::RepoStatus;
use crate::text::{decimal, owned, push_decimal, push_str};
use crate::ui::{handle_vertical_key_matching, next_selectable, prev_selectable, vertical_move_spec, Area, KeyCode, KeyEvent, MouseInput, VerticalMove};

verus! {

/// What a menu entry does.
#[derive(Debug)]
pub enum MenuAction {
    OpenGraph,
    Refresh,
    CopyPath,
    OpenGitHub,
    Commit,
    Push,
    Publish,
    CreateGithubPrivate,
    CreateGithubPublic,
    Pull,
    PullRebase,
    PullSubmodules,
    RemoveOriginRemote,
    SubmoduleUpdate,
    SubmoduleSync,
    SubmoduleUpdateLatest,
    RevertFile(String),
    CopyFilePath(String),
}

/// Colour of an entry: pushes green; commit, publish and GitHub creation
/// cyan; pulls yellow; destructive entries red; submodule entries light
/// magenta; others plain.
pub open spec fn action_style(a: MenuAction) -> Style {
    let c = match a {
        MenuAction::Push => Some(Color::Green),
        MenuAction::Commit | MenuAction::Publish | MenuAction::CreateGithubPrivate
        | MenuAction::CreateGithubPublic => Some(Color::Cyan),
        MenuAction::Pull | MenuAction::PullRebase | MenuAction::PullSubmodules => Some(Color::Yellow),
        MenuAction::RemoveOriginRemote | MenuAction::RevertFile(_) => Some(Color::Red),
        MenuAction::SubmoduleUpdate | MenuAction::SubmoduleSync | MenuAction::SubmoduleUpdateLatest => Some(
            Color::LightMagenta,
        ),
        _ => None,
    };
    Style { fg: c, bg: None, bold: false, italic: false }
}

impl Clone for MenuAction {
    fn clone(&self) -> (r: Self)
        ensures
            r == *self,
    {
        match self {
            MenuAction::OpenGraph => MenuAction::OpenGraph,
            MenuAction::Refresh => MenuAction::Refresh,
            MenuAction::CopyPath => MenuAction::CopyPath,
            MenuAction::OpenGitHub => MenuAction::OpenGitHub,
            MenuAction::Commit => MenuAction::Commit,
            MenuAction::Push => MenuAction::Push,
            MenuAction::Publish => MenuAction::Publish,
            MenuAction::CreateGithubPrivate => MenuAction::CreateGithubPrivate,
            MenuAction::CreateGithubPublic => MenuAction::CreateGithubPublic,
            MenuAction::Pull => MenuAction::Pull,
            MenuAction::PullRebase => MenuAction::PullRebase,
            MenuAction::PullSubmodules => MenuAction::PullSubmodules,
            MenuAction::RemoveOriginRemote => MenuAction::RemoveOriginRemote,
            MenuAction::SubmoduleUpdate => MenuAction::SubmoduleUpdate,
            MenuAction::SubmoduleSync => MenuAction::SubmoduleSync,
            MenuAction::SubmoduleUpdateLatest => MenuAction::SubmoduleUpdateLatest,
            MenuAction::RevertFile(p) => MenuAction::RevertFile(p.clone()),
            MenuAction::CopyFilePath(p) => MenuAction::CopyFilePath(p.clone()),
        }
    }
}

impl MenuAction {
    /// Style of the entry's label.
    pub fn style(&self) -> (r: Style)
        ensures
            r == action_style(*self),
    {
        let c = match self {
            MenuAction::Push => Some(Color::Green),
            MenuAction::Commit | MenuAction::Publish | MenuAction::CreateGithubPrivate
            | MenuAction::CreateGithubPublic => Some(Color::Cyan),
            MenuAction::Pull | MenuAction::PullRebase | MenuAction::PullSubmodules => Some(Color::Yellow),
            MenuAction::RemoveOriginRemote | MenuAction::RevertFile(_) => Some(Color::Red),
            MenuAction::SubmoduleUpdate | MenuAction::SubmoduleSync | MenuAction::SubmoduleUpdateLatest => Some(
                Color::LightMagenta,
            ),
            _ => None,
        };
        Style { fg: c, bg: None, bold: false, italic: false }
    }
}

/// A menu line: an entry, or a section heading when it has no action.
#[derive(Debug)]
pub struct MenuItem {
    pub label: String,
    pub action: Option<MenuAction>,
}

/// Label and action of an item.
pub type ItemView = (Seq<char>, Option<MenuAction>);

pub open spec fn items_view(v: Seq<MenuItem>) -> Seq<ItemView> {
    v.map_values(|i: MenuItem| (i.label@, i.action))
}

/// An entry.
pub fn menu_item(label: String, action: MenuAction) -> (r: MenuItem)
    ensures
        r.label == label,
        r.action == Some(action),
{
    MenuItem { label, action: Some(action) }
}

/// A section heading.
pub fn separator(label: String) -> (r: MenuItem)
    ensures
        r.label == label,
        r.action is None,
{
    MenuItem { label, action: None }
}

/// Appends a heading and its entries.
pub fn push_section(items: &mut Vec<MenuItem>, label: &str, actions: Vec<(String, MenuAction)>)
    ensures
        items_view(final(items)@) == items_view(old(items)@) + seq![(label@, None::<MenuAction>)] + actions@.map_values(
            |p: (String, MenuAction)| (p.0@, Some(p.1)),
        ),
{
    items.push(separator(owned(label)));
    let ghost base = items_view(items@);
    assert(base =~= items_view(old(items)@) + seq![(label@, None::<MenuAction>)]);
    let mut i: usize = 0;
    let n = actions.len();
    let mut rest = actions;
    let ghost acts = rest@;
    while rest.len() > 0
        invariant
            n == acts.len(),
            rest@ == acts.skip(i as int),
            i <= n,
            items_view(items@) == base + acts.take(i as int).map_values(|p: (String, MenuAction)| (p.0@, Some(p.1))),
        decreases rest@.len(),
    {
        let ghost before = items_view(items@);
        proof {
            assert(acts.skip(i as int)[0] == acts[i as int]);
        }
        let (label, action) = rest.remove(0);
        assert(label == acts[i as int].0 && action == acts[i as int].1);
        items.push(menu_item(label, action));
        assert(items_view(items@) =~= before.push((acts[i as int].0@, Some(acts[i as int].1))));
        assert(acts.take(i + 1).map_values(|p: (String, MenuAction)| (p.0@, Some(p.1))) =~= acts.take(
            i as int,
        ).map_values(|p: (String, MenuAction)| (p.0@, Some(p.1))).push((acts[i as int].0@, Some(acts[i as int].1))));
        i = i + 1;
        assert(rest@ =~= acts.skip(i as int));
        assert(items_view(items@) =~= base + acts.take(i as int).map_values(
            |p: (String, MenuAction)| (p.0@, Some(p.1)),
        ));
    }
    assert(acts.take(i as int) =~= acts);
}

/// Remote state shown in a repository's menu.
#[derive(Debug)]
pub struct RepoMenuState {
    pub ahead: usize,
    pub behind: usize,
    pub has_upstream: bool,
    pub has_submodules: bool,
    pub has_github_remote: bool,
    pub has_origin_remote: bool,
}

impl RepoMenuState {
    /// Menu state of a repository's status (all off without one).
    pub fn from_status(status: Option<&RepoStatus>) -> (r: Self)
        ensures
            match status {
                Some(s) => r.ahead == s.ahead && r.behind == s.behind && r.has_upstream == s.has_upstream
                    && r.has_submodules == s.has_submodules && r.has_github_remote == s.has_github_remote
                    && r.has_origin_remote == s.has_origin_remote,
                None => r.ahead == 0 && r.behind == 0 && !r.has_upstream && !r.has_submodules
                    && !r.has_github_remote && !r.has_origin_remote,
            },
    {
        match status {
            Some(s) => RepoMenuState {
                ahead: s.ahead,
                behind: s.behind,
                has_upstream: s.has_upstream,
                has_submodules: s.has_submodules,
                has_github_remote: s.has_github_remote,
                has_origin_remote: s.has_origin_remote,
            },
            None => RepoMenuState {
                ahead: 0,
                behind: 0,
                has_upstream: false,
                has_submodules: false,
                has_github_remote: false,
                has_origin_remote: false,
            },
        }
    }
}

/// Label of the push entry.
pub open spec fn push_label_spec(st: RepoMenuState) -> Seq<char> {
    if !st.has_upstream {
        "Push (publish first)"@
    } else if st.ahead > 0 {
        "Push  \u{2191}"@ + decimal(st.ahead as nat)
    } else {
        "Push"@
    }
}

/// Label of the pull entry.
pub open spec fn pull_label_spec(st: RepoMenuState) -> Seq<char> {
    if st.behind > 0 { "Pull  \u{2193}"@ + decimal(st.behind as nat) } else { "Pull"@ }
}

pub fn push_label(state: &RepoMenuState) -> (r: String)
    ensures
        r@ == push_label_spec(*state),
{
    if !state.has_upstream {
        owned("Push (publish first)")
    } else if state.ahead > 0 {
        let mut s = owned("Push  \u{2191}");
        push_decimal(&mut s, state.ahead as u64);
        s
    } else {
        owned("Push")
    }
}

pub fn pull_label(state: &RepoMenuState) -> (r: String)
    ensures
        r@ == pull_label_spec(*state),
{
    if state.behind > 0 {
        let mut s = owned("Pull  \u{2193}");
        push_decimal(&mut s, state.behind as u64);
        s
    } else {
        owned("Pull")
    }
}

/// A heading followed by its entries.
pub open spec fn section(label: Seq<char>, entries: Seq<(Seq<char>, MenuAction)>) -> Seq<ItemView> {
    seq![(label, None::<MenuAction>)] + entries.map_values(|e: (Seq<char>, MenuAction)| (e.0, Some(e.1)))
}

/// Entries of a repository's menu.
pub open spec fn repo_menu_spec(st: RepoMenuState) -> Seq<ItemView> {
    section(
        "Repository"@,
        seq![
            ("Open git graph"@, MenuAction::OpenGraph),
            ("Refresh"@, MenuAction::Refresh),
            ("Copy path"@, MenuAction::CopyPath),
            ("Commit all changes"@, MenuAction::Commit),
        ],
    ) + section(
        "Remote"@,
        seq![
            (push_label_spec(st), MenuAction::Push),
            ("Publish branch"@, MenuAction::Publish),
            (pull_label_spec(st), MenuAction::Pull),
            ("Pull --rebase"@, MenuAction::PullRebase),
        ],
    ) + (if st.has_github_remote {
        section("GitHub"@, seq![("Open GitHub"@, MenuAction::OpenGitHub)])
    } else {
        section(
            "GitHub"@,
            seq![
                ("Create GitHub repo (private)"@, MenuAction::CreateGithubPrivate),
                ("Create GitHub repo (public)"@, MenuAction::CreateGithubPublic),
            ],
        )
    }) + (if st.has_submodules {
        section(
            "Submodules"@,
            seq![
                ("Pull --recurse-subs"@, MenuAction::PullSubmodules),
                ("Sub: update --init"@, MenuAction::SubmoduleUpdate),
                ("Sub: sync"@, MenuAction::SubmoduleSync),
                ("Sub: pull latest"@, MenuAction::SubmoduleUpdateLatest),
            ],
        )
    } else {
        Seq::empty()
    }) + (if st.has_origin_remote {
        section("Danger"@, seq![("Remove origin remote"@, MenuAction::RemoveOriginRemote)])
    } else {
        Seq::empty()
    })
}

/// First entry (not heading) from `i` on.
pub open spec fn first_action(items: Seq<ItemView>, i: int) -> Option<usize>
    decreases items.len() - i,
{
    if i < 0 || i >= items.len() {
        None
    } else if items[i].1 is Some {
        Some(i as usize)
    } else {
        first_action(items, i + 1)
    }
}

/// Which rows of a menu are entries.
pub open spec fn selectable_mask(items: Seq<ItemView>) -> Seq<bool> {
    items.map_values(|it: ItemView| it.1 is Some)
}

/// What the menu answers to an input.
#[derive(Debug)]
pub enum MenuOutcome {
    Nothing,
    /// An entry was chosen for this repository.
    Activated(MenuAction, RepoId),
    /// The menu was dismissed by another key.
    Dismissed,
}

/// The context menu.
#[derive(Debug)]
pub struct ContextMenu {
    pub visible: bool,
    pub repo_id: Option<RepoId>,
    /// Column and row where the menu was opened.
    pub position: (u16, u16),
    pub items: Vec<MenuItem>,
    pub selected: Option<usize>,
    /// Screen area of the last drawing.
    pub last_rendered_area: Area,
}

fn entries(v: Vec<(&str, MenuAction)>) -> (r: Vec<(String, MenuAction)>)
    ensures
        r@.map_values(|p: (String, MenuAction)| (p.0@, Some(p.1))) == v@.map_values(
            |p: (&str, MenuAction)| (p.0@, Some(p.1)),
        ),
{
    let mut out: Vec<(String, MenuAction)> = Vec::new();
    let mut i: usize = 0;
    while i < v.len()
        invariant
            i <= v@.len(),
            out@.len() == i,
            forall|j: int| 0 <= j < i ==> (#[trigger] out@[j]).0@ == v@[j].0@ && out@[j].1 == v@[j].1,
        decreases v@.len() - i,
    {
        let (l, a) = (v[i].0, v[i].1.clone());
        out.push((owned(l), a));
        i = i + 1;
    }
    assert(out@.map_values(|p: (String, MenuAction)| (p.0@, Some(p.1))) =~= v@.map_values(
        |p: (&str, MenuAction)| (p.0@, Some(p.1)),
    ));
    out
}

fn push_entries(items: &mut Vec<MenuItem>, label: &str, v: Vec<(&str, MenuAction)>)
    ensures
        items_view(final(items)@) == items_view(old(items)@) + seq![(label@, None::<MenuAction>)] + v@.map_values(
            |p: (&str, MenuAction)| (p.0@, Some(p.1)),
        ),
{
    let e = entries(v);
    push_section(items, label, e);
}

impl ContextMenu {
    /// A hidden, empty menu.
    pub fn new() -> (r: Self)
        ensures
            !r.visible,
            r.repo_id is None,
            r.position == (0u16, 0u16),
            r.items@.len() == 0,
            r.selected is None,
            r.last_rendered_area == (Area { x: 0, y: 0, width: 0, height: 0 }),
    {
        ContextMenu {
            visible: false,
            repo_id: None,
            position: (0, 0),
            items: Vec::new(),
            selected: None,
            last_rendered_area: Area { x: 0, y: 0, width: 0, height: 0 },
        }
    }

    /// Selects the first entry.
    pub fn select_first_action(&mut self)
        ensures
            final(self).selected == first_action(items_view(old(self).items@), 0),
            *final(self) == (ContextMenu { selected: final(self).selected, ..*old(self) }),
    {
        let mut i: usize = 0;
        while i < self.items.len()
            invariant
                *self == *old(self),
                i <= self.items@.len(),
                first_action(items_view(self.items@), 0) == first_action(items_view(self.items@), i as int),
            decreases self.items@.len() - i,
        {
            if self.items[i].action.is_some() {
                self.selected = Some(i);
                return;
            }
            i = i + 1;
        }
        self.selected = None;
    }

    /// Opens the menu of a repository at a screen position.
    pub fn show(&mut self, repo_id: RepoId, col: u16, row: u16, repo_state: RepoMenuState)
        ensures
            final(self).visible,
            final(self).repo_id == Some(repo_id),
            final(self).position == (col, row),
            items_view(final(self).items@) == repo_menu_spec(repo_state),
            final(self).selected == first_action(repo_menu_spec(repo_state), 0),
    {
        self.visible = true;
        self.repo_id = Some(repo_id);
        self.position = (col, row);
        let mut items: Vec<MenuItem> = Vec::new();
        push_entries(
            &mut items,
            "Repository",
            vec![
                ("Open git graph", MenuAction::OpenGraph),
                ("Refresh", MenuAction::Refresh),
                ("Copy path", MenuAction::CopyPath),
                ("Commit all changes", MenuAction::Commit),
            ],
        );
        let ghost a = items_view(items@);
        let remote = vec![
            (push_label(&repo_state), MenuAction::Push),
            (owned("Publish branch"), MenuAction::Publish),
            (pull_label(&repo_state), MenuAction::Pull),
            (owned("Pull --rebase"), MenuAction::PullRebase),
        ];
        push_section(&mut items, "Remote", remote);
        let ghost b = items_view(items@);
        if repo_state.has_github_remote {
            push_entries(&mut items, "GitHub", vec![("Open GitHub", MenuAction::OpenGitHub)]);
        } else {
            push_entries(
                &mut items,
                "GitHub",
                vec![
                    ("Create GitHub repo (private)", MenuAction::CreateGithubPrivate),
                    ("Create GitHub repo (public)", MenuAction::CreateGithubPublic),
                ],
            );
        }
        let ghost c = items_view(items@);
        if repo_state.has_submodules {
            push_entries(
                &mut items,
                "Submodules",
                vec![
                    ("Pull --recurse-subs", MenuAction::PullSubmodules),
                    ("Sub: update --init", MenuAction::SubmoduleUpdate),
                    ("Sub: sync", MenuAction::SubmoduleSync),
                    ("Sub: pull latest", MenuAction::SubmoduleUpdateLatest),
                ],
            );
        }
        let ghost d = items_view(items@);
        if repo_state.has_origin_remote {
            push_entries(&mut items, "Danger", vec![("Remove origin remote", MenuAction::RemoveOriginRemote)]);
        }
        proof {
            assert(a =~= section(
                "Repository"@,
                seq![
                    ("Open git graph"@, MenuAction::OpenGraph),
                    ("Refresh"@, MenuAction::Refresh),
                    ("Copy path"@, MenuAction::CopyPath),
                    ("Commit all changes"@, MenuAction::Commit),
                ],
            ));
            assert(b =~= a + section(
                "Remote"@,
                seq![
                    (push_label_spec(repo_state), MenuAction::Push),
                    ("Publish branch"@, MenuAction::Publish),
                    (pull_label_spec(repo_state), MenuAction::Pull),
                    ("Pull --rebase"@, MenuAction::PullRebase),
                ],
            ));
            if repo_state.has_github_remote {
                assert(c =~= b + section("GitHub"@, seq![("Open GitHub"@, MenuAction::OpenGitHub)]));
            } else {
                assert(c =~= b + section(
                    "GitHub"@,
                    seq![
                        ("Create GitHub repo (private)"@, MenuAction::CreateGithubPrivate),
                        ("Create GitHub repo (public)"@, MenuAction::CreateGithubPublic),
                    ],
                ));
            }
            if repo_state.has_submodules {
                assert(d =~= c + section(
                    "Submodules"@,
                    seq![
                        ("Pull --recurse-subs"@, MenuAction::PullSubmodules),
                        ("Sub: update --init"@, MenuAction::SubmoduleUpdate),
                        ("Sub: sync"@, MenuAction::SubmoduleSync),
                        ("Sub: pull latest"@, MenuAction::SubmoduleUpdateLatest),
                    ],
                ));
            } else {
                assert(d =~= c + Seq::<ItemView>::empty());
            }
            if repo_state.has_origin_remote {
                assert(items_view(items@) =~= d + section(
                    "Danger"@,
                    seq![("Remove origin remote"@, MenuAction::RemoveOriginRemote)],
                ));
            } else {
                assert(items_view(items@) =~= d + Seq::<ItemView>::empty());
            }
            assert(items_view(items@) =~= repo_menu_spec(repo_state));
        }
        self.items = items;
        self.select_first_action();
    }

    /// Opens the menu of a changed file: revert it, or copy its path.
    pub fn show_for_file(&mut self, repo_id: RepoId, path: String, col: u16, row: u16)
        ensures
            final(self).visible,
            final(self).repo_id == Some(repo_id),
            final(self).position == (col, row),
            items_view(final(self).items@) == section(
                "File"@,
                seq![
                    ("Revert "@ + match file_name_spec(path@) {
                        Some(n) => n,
                        None => path@,
                    }, MenuAction::RevertFile(path)),
                    ("Copy path"@, MenuAction::CopyFilePath(path)),
                ],
            ),
            final(self).selected == Some(1usize),
    {
        self.visible = true;
        self.repo_id = Some(repo_id);
        self.position = (col, row);
        let filename = match file_name(path.as_str()) {
            Some(n) => n,
            None => path.clone(),
        };
        let mut label = owned("Revert ");
        push_str(&mut label, filename.as_str());
        let mut items: Vec<MenuItem> = Vec::new();
        let entries = vec![
            (label, MenuAction::RevertFile(path.clone())),
            (owned("Copy path"), MenuAction::CopyFilePath(path)),
        ];
        push_section(&mut items, "File", entries);
        self.items = items;
        self.select_first_action();
        proof {
            assert(items_view(self.items@)[1].1 is Some);
            assert(first_action(items_view(self.items@), 1) == Some(1usize));
        }
    }

    /// Closes the menu.
    pub fn close(&mut self)
        ensures
            *final(self) == (ContextMenu { visible: false, ..*old(self) }),
    {
        self.visible = false;
    }

    /// Choosing the selected row: an entry gives its action with the menu's
    /// repository and closes the menu; a heading, no selection or no
    /// repository gives nothing and changes nothing.
    pub open spec fn activation_spec(m: ContextMenu, r: MenuOutcome, after: ContextMenu) -> bool {
        let ok = match m.selected {
            Some(i) => i < m.items@.len() && m.items@[i as int].action is Some && m.repo_id is Some,
            None => false,
        };
        if ok {
            &&& r == MenuOutcome::Activated(m.items@[m.selected->0 as int].action->0, m.repo_id->0)
            &&& after == (ContextMenu { visible: false, ..m })
        } else {
            r is Nothing && after == m
        }
    }

    /// The chosen entry's action with the menu's repository, closing the
    /// menu; nothing for a heading or without a repository.
    pub fn activate_selected(&mut self) -> (r: Option<(MenuAction, RepoId)>)
        ensures
            ({
                let ok = match old(self).selected {
                    Some(i) => i < old(self).items@.len() && old(self).items@[i as int].action is Some
                        && old(self).repo_id is Some,
                    None => false,
                };
                if ok {
                    &&& r == Some((old(self).items@[old(self).selected->0 as int].action->0, old(self).repo_id->0))
                    &&& *final(self) == (ContextMenu { visible: false, ..*old(self) })
                } else {
                    r is None && *final(self) == *old(self)
                }
            }),
    {
        let idx = match self.selected {
            Some(i) => i,
            None => return None,
        };
        if idx >= self.items.len() {
            return None;
        }
        let id = match &self.repo_id {
            Some(id) => id.clone(),
            None => return None,
        };
        let action = match &self.items[idx].action {
            Some(a) => a.clone(),
            None => return None,
        };
        self.close();
        Some((action, id))
    }

    /// Selectable rows (entries, not headings).
    fn selectable(&self) -> (r: Vec<bool>)
        ensures
            r@ == selectable_mask(items_view(self.items@)),
    {
        let mut r: Vec<bool> = Vec::new();
        let mut i: usize = 0;
        while i < self.items.len()
            invariant
                i <= self.items@.len(),
                r@ == selectable_mask(items_view(self.items@)).take(i as int),
            decreases self.items@.len() - i,
        {
            r.push(self.items[i].action.is_some());
            i = i + 1;
            assert(r@ =~= selectable_mask(items_view(self.items@)).take(i as int));
        }
        assert(selectable_mask(items_view(self.items@)).take(i as int) =~= selectable_mask(items_view(self.items@)));
        r
    }

    /// `j`/`k` and the arrows move between entries, skipping headings; Esc
    /// closes; Enter chooses; any other key dismisses.
    pub fn handle_key_event(&mut self, key: KeyEvent) -> (r: MenuOutcome)
        ensures
            !old(self).visible ==> r is Nothing && *final(self) == *old(self),
            old(self).visible && vertical_move_spec(key) is Some ==> r is Nothing && final(self).visible
                && final(self).items == old(self).items,
            old(self).visible && vertical_move_spec(key) == Some(VerticalMove::Next) ==> final(self).selected == (
            if old(self).items@.len() == 0 {
                old(self).selected
            } else {
                let start = match old(self).selected {
                    Some(i) => i as int,
                    None => 0,
                };
                Some(
                    next_selectable(
                        selectable_mask(items_view(old(self).items@)),
                        start,
                        old(self).items@.len() as int,
                        start + 1,
                    ) as usize,
                )
            }),
            old(self).visible && vertical_move_spec(key) == Some(VerticalMove::Prev) ==> final(self).selected == (
            if old(self).items@.len() == 0 {
                old(self).selected
            } else {
                let start = match old(self).selected {
                    Some(i) => i as int,
                    None => 0,
                };
                Some(prev_selectable(selectable_mask(items_view(old(self).items@)), start, start - 1) as usize)
            }),
            old(self).visible && vertical_move_spec(key) is None && key.code == KeyCode::Esc ==> r is Nothing
                && !final(self).visible,
            old(self).visible && vertical_move_spec(key) is None && key.code != KeyCode::Esc && key.code
                != KeyCode::Enter ==> r is Dismissed && !final(self).visible,
            old(self).visible && vertical_move_spec(key) is None && key.code == KeyCode::Enter ==> Self::activation_spec(
                *old(self),
                r,
                *final(self),
            ),
    {
        if !self.visible {
            return MenuOutcome::Nothing;
        }
        let mask = self.selectable();
        match handle_vertical_key_matching(self.selected, self.items.len(), key, &mask) {
            Some(sel) => {
                self.selected = sel;
                return MenuOutcome::Nothing;
            },
            None => {},
        }
        match key.code {
            KeyCode::Esc => {
                self.close();
                MenuOutcome::Nothing
            },
            KeyCode::Enter => match self.activate_selected() {
                Some((a, id)) => MenuOutcome::Activated(a, id),
                None => MenuOutcome::Nothing,
            },
            _ => {
                self.close();
                MenuOutcome::Dismissed
            },
        }
    }
}

/// Widest label plus its two border cells, at least 24, over the first `n`
/// items.
pub open spec fn menu_width(items: Seq<MenuItem>, n: int) -> int
    decreases n,
{
    if n <= 0 {
        24
    } else {
        let w: int = items[n - 1].label@.len() as int + 2;
        let rest = menu_width(items, n - 1);
        if w > rest { w } else { rest }
    }
}

/// Labels and entries small enough to measure in terminal cells.
pub open spec fn menu_fits(items: Seq<MenuItem>) -> bool {
    &&& items.len() + 2 <= u16::MAX
    &&& forall|i: int| 0 <= i < items.len() ==> (#[trigger] items[i]).label@.len() + 2 <= u16::MAX
}

/// Where the menu is drawn inside `terminal`: at its position, moved left
/// and up as needed to stay on screen.
pub open spec fn menu_rect_spec(m: ContextMenu, terminal: Area) -> Area {
    let w = menu_width(m.items@, m.items@.len() as int);
    let h = m.items@.len() + 2;
    let max_x = if terminal.width > w { terminal.width - w } else { 0 };
    let max_y = if terminal.height > h { terminal.height - h } else { 0 };
    Area {
        x: (if m.position.0 < max_x { m.position.0 as int } else { max_x }) as u16,
        y: (if m.position.1 < max_y { m.position.1 as int } else { max_y }) as u16,
        width: w as u16,
        height: h as u16,
    }
}

proof fn lemma_menu_width(items: Seq<MenuItem>, n: int)
    requires
        0 <= n <= items.len(),
        menu_fits(items),
    ensures
        24 <= menu_width(items, n) <= u16::MAX,
    decreases n,
{
    if n > 0 {
        lemma_menu_width(items, n - 1);
    }
}

impl ContextMenu {
    /// Screen rectangle of the menu inside `terminal`.
    pub fn menu_rect(&self, terminal_area: Area) -> (r: Area)
        requires
            menu_fits(self.items@),
        ensures
            r == menu_rect_spec(*self, terminal_area),
    {
        let mut width: u16 = 24;
        let mut i: usize = 0;
        while i < self.items.len()
            invariant
                i <= self.items@.len(),
                menu_fits(self.items@),
                width == menu_width(self.items@, i as int),
            decreases self.items@.len() - i,
        {
            proof {
                lemma_menu_width(self.items@, i as int);
            }
            let len = self.items[i].label.as_str().unicode_len();
            let w = (len as u16) + 2;
            if w > width {
                width = w;
            }
            i = i + 1;
        }
        let height = (self.items.len() as u16) + 2;
        let max_x = if terminal_area.width > width {
            terminal_area.width - width
        } else {
            0
        };
        let max_y = if terminal_area.height > height {
            terminal_area.height - height
        } else {
            0
        };
        let x = if self.position.0 < max_x {
            self.position.0
        } else {
            max_x
        };
        let y = if self.position.1 < max_y {
            self.position.1
        } else {
            max_y
        };
        Area { x, y, width, height }
    }

    /// Item under a click at (`col`, `row`): the row inside the menu's
    /// border, counted from its first item.
    pub open spec fn click_index_spec(m: ContextMenu, col: u16, row: u16) -> Option<usize> {
        let rect = menu_rect_spec(m, m.last_rendered_area);
        let cx = rect.x + 1;
        let cy = rect.y + 1;
        let right = rect.x + rect.width - 1;
        let bottom = cy + m.items@.len();
        if col >= cx && col < right && row >= cy && row < bottom {
            Some((row - cy) as usize)
        } else {
            None
        }
    }

    /// What a left click at (`col`, `row`) on an open menu gives: the entry
    /// under it is chosen (closing the menu), a heading is only selected, and
    /// a click outside the items closes the menu.
    pub open spec fn left_click_spec(m: ContextMenu, col: u16, row: u16, r: MenuOutcome, after: ContextMenu) -> bool {
        match Self::click_index_spec(m, col, row) {
            Some(i) => {
                let chosen = ContextMenu { selected: Some(i), ..m };
                if i < m.items@.len() && m.items@[i as int].action is Some && m.repo_id is Some {
                    &&& r == MenuOutcome::Activated(m.items@[i as int].action->0, m.repo_id->0)
                    &&& after == (ContextMenu { visible: false, ..chosen })
                } else {
                    r is Nothing && after == chosen
                }
            },
            None => r is Nothing && after == (ContextMenu { visible: false, ..m }),
        }
    }

    /// Item under a click, if the click is inside the menu's content.
    pub fn click_item_index(&self, col: u16, row: u16) -> (r: Option<usize>)
        requires
            menu_fits(self.items@),
            ({
                let rect = menu_rect_spec(*self, self.last_rendered_area);
                rect.x + rect.width <= u16::MAX && rect.y + 1 + self.items@.len() <= u16::MAX
            }),
        ensures
            r == Self::click_index_spec(*self, col, row),
    {
        proof {
            lemma_menu_width(self.items@, self.items@.len() as int);
        }
        let rect = self.menu_rect(self.last_rendered_area);
        let content_x = rect.x + 1;
        let content_y = rect.y + 1;
        let content_right = rect.x + (rect.width - 1);
        let content_bottom = content_y + (self.items.len() as u16);
        if col >= content_x && col < content_right && row >= content_y && row < content_bottom {
            Some((row - content_y) as usize)
        } else {
            None
        }
    }

    /// A left click on an entry chooses it; any other click closes the menu.
    pub fn handle_mouse_event(&mut self, mouse: MouseInput) -> (r: MenuOutcome)
        requires
            menu_fits(old(self).items@),
            ({
                let rect = menu_rect_spec(*old(self), old(self).last_rendered_area);
                rect.x + rect.width <= u16::MAX && rect.y + 1 + old(self).items@.len() <= u16::MAX
            }),
        ensures
            !old(self).visible ==> r is Nothing && *final(self) == *old(self),
            old(self).visible && (mouse is OtherDown || mouse is RightDown) ==> r is Nothing && !final(self).visible,
            old(self).visible && !(mouse is LeftDown) && !(mouse is OtherDown) && !(mouse is RightDown) ==> r is Nothing
                && *final(self) == *old(self),
            old(self).visible ==> (mouse matches MouseInput::LeftDown(col, row) ==> Self::left_click_spec(
                *old(self),
                col,
                row,
                r,
                *final(self),
            )),
    {
        if !self.visible {
            return MenuOutcome::Nothing;
        }
        match mouse {
            MouseInput::LeftDown(col, row) => {
                match self.click_item_index(col, row) {
                    Some(idx) => {
                        self.selected = Some(idx);
                        match self.activate_selected() {
                            Some((a, id)) => MenuOutcome::Activated(a, id),
                            None => MenuOutcome::Nothing,
                        }
                    },
                    None => {
                        self.close();
                        MenuOutcome::Nothing
                    },
                }
            },
            MouseInput::OtherDown | MouseInput::RightDown(_, _) => {
                self.close();
                MenuOutcome::Nothing
            },
            _ => MenuOutcome::Nothing,
        }
    }
}

} // verus!
