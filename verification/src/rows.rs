//! Lines of the repository list, the file lists and the status bar, as
//! styled text.
use vstd::prelude::*;
use crate::dialogs::StatusBar;
use crate::file_list::FileList;
use crate::helpers::{submodule_label, submodule_marker};
use crate::render::{fg, plain, span_view, spans_view, status_color, status_color_spec, Color, Style, StyledSpan, SpanView};
use crate::repo::{display_name_spec, has_duplicate_spec, is_expanded, RepoEntry, RepoList};
use crate::status::{status_label, FileEntry, RepoStatus};
use crate::text::{decimal, owned, push_char, push_decimal, push_str, str_chars};
use crate::ui::FocusPanel;

verus! {

/// Bold text in colour `c`.
pub open spec fn bold(c: Color) -> Style {
    Style { fg: Some(c), bg: None, bold: true, italic: false }
}

/// Bold text in colour `f` on colour `b`.
pub open spec fn badge_style(f: Color, b: Color) -> Style {
    Style { fg: Some(f), bg: Some(b), bold: true, italic: false }
}

/// `s` padded with spaces on the right to `width` characters.
pub open spec fn pad_right_spec(s: Seq<char>, width: nat) -> Seq<char> {
    if s.len() >= width {
        s
    } else {
        s + Seq::new((width - s.len()) as nat, |_i: int| ' ')
    }
}

/// Pads `s` with spaces on the right to `width` characters.
pub fn pad_right(s: &str, width: usize) -> (r: String)
    ensures
        r@ == pad_right_spec(s@, width as nat),
{
    let n = str_chars(s).len();
    let mut r = owned(s);
    if n >= width {
        return r;
    }
    let mut k: usize = n;
    while k < width
        invariant
            n == s@.len(),
            n <= k <= width,
            r@ == s@ + Seq::new((k - n) as nat, |_i: int| ' '),
        decreases width - k,
    {
        let ghost before = r@;
        push_char(&mut r, ' ');
        assert(r@ =~= s@ + Seq::new((k + 1 - n) as nat, |_i: int| ' ')) by {
            assert(before.push(' ') =~= s@ + Seq::new((k + 1 - n) as nat, |_i: int| ' '));
        }
        k = k + 1;
    }
    r
}

fn styled(content: String, style: Style) -> (r: StyledSpan)
    ensures
        span_view(r) == (content@, style),
{
    StyledSpan { content, style }
}

fn push_span(out: &mut Vec<StyledSpan>, content: String, style: Style)
    ensures
        spans_view(final(out)@) == spans_view(old(out)@).push((content@, style)),
{
    let ghost before = spans_view(out@);
    out.push(styled(content, style));
    assert(spans_view(out@) =~= before.push((content@, style)));
}

/// A status letter as a badge: ` M ` in the letter's colour, bold.
pub open spec fn status_badge_spec(label: Seq<char>) -> SpanView {
    (" "@ + label + " "@, bold(status_color_spec(label)))
}

/// The badge of a status letter.
pub fn status_badge(label: &str) -> (r: StyledSpan)
    ensures
        span_view(r) == status_badge_spec(label@),
{
    let mut s = owned(" ");
    push_str(&mut s, label);
    push_str(&mut s, " ");
    let c = status_color(label);
    styled(s, Style { fg: Some(c), bg: None, bold: true, italic: false })
}

// --- repository list --------------------------------------------------------------------------

/// The marker in front of a repository: `~` while an operation runs, `*`
/// when it has uncommitted changes, else blank.
pub open spec fn repo_marker_spec(e: RepoEntry) -> SpanView {
    if e.git_op {
        ("~ "@, fg(Color::Cyan))
    } else if e.status matches Some(s) && s.is_dirty {
        ("* "@, fg(Color::Yellow))
    } else {
        ("  "@, plain())
    }
}

/// `[span]` when `cond`, else nothing.
pub open spec fn when(cond: bool, s: SpanView) -> Seq<SpanView> {
    if cond {
        seq![s]
    } else {
        Seq::empty()
    }
}

/// What a repository's status shows: its branch (padded to 12), commits
/// ahead and behind, its worktrees (folded or unfolded), a dirty-submodule
/// mark, a failed-fetch mark and the number of changed files.
pub open spec fn repo_status_spans_spec(s: RepoStatus, expanded: bool) -> Seq<SpanView> {
    seq![(pad_right_spec(s.branch@, 12) + " "@, fg(Color::Cyan))] + when(
        s.ahead > 0,
        ("\u{2191}"@ + decimal(s.ahead as nat) + " "@, fg(Color::Green)),
    ) + when(s.behind > 0, ("\u{2193}"@ + decimal(s.behind as nat) + " "@, fg(Color::Red))) + when(
        s.worktree_info@.len() > 0,
        ((if expanded {
            "\u{25bc}"@
        } else {
            "\u{25b6}"@
        }) + decimal(s.worktree_info@.len()) + " "@, fg(Color::Magenta)),
    ) + when(s.has_dirty_submodules, ("\u{25c8} "@, fg(Color::LightMagenta))) + when(
        s.fetch_failed,
        ("\u{26a0} "@, fg(Color::DarkGray)),
    ) + when(s.files@.len() > 0, ("["@ + decimal(s.files@.len()) + "] "@, fg(Color::Yellow)))
}

/// The line of a repository named `label`, whose worktrees are unfolded
/// when `expanded`.
pub open spec fn repo_row_spec(e: RepoEntry, expanded: bool, label: Seq<char>) -> Seq<SpanView> {
    seq![repo_marker_spec(e)] + match e.status {
        Some(s) => repo_status_spans_spec(s, expanded),
        None => Seq::empty(),
    } + seq![(label, fg(Color::White))]
}

fn push_when(out: &mut Vec<StyledSpan>, cond: bool, content: String, style: Style)
    ensures
        spans_view(final(out)@) == spans_view(old(out)@) + when(cond, (content@, style)),
{
    let ghost before = spans_view(out@);
    if cond {
        push_span(out, content, style);
    } else {
        assert(before + Seq::<SpanView>::empty() =~= before);
    }
}

fn counted_text(prefix: &str, n: usize, suffix: &str) -> (r: String)
    ensures
        r@ == prefix@ + decimal(n as nat) + suffix@,
{
    let mut t = owned(prefix);
    push_decimal(&mut t, n as u64);
    push_str(&mut t, suffix);
    t
}

fn repo_status_spans(s: &RepoStatus, expanded: bool) -> (r: Vec<StyledSpan>)
    ensures
        spans_view(r@) == repo_status_spans_spec(*s, expanded),
{
    let mut out: Vec<StyledSpan> = Vec::new();
    let mut branch = pad_right(s.branch.as_str(), 12);
    push_str(&mut branch, " ");
    push_span(&mut out, branch, Style { fg: Some(Color::Cyan), bg: None, bold: false, italic: false });
    let icon = if expanded {
        "\u{25bc}"
    } else {
        "\u{25b6}"
    };
    push_when(&mut out, s.ahead > 0, counted_text("\u{2191}", s.ahead, " "), Style { fg: Some(Color::Green), bg: None, bold: false, italic: false });
    push_when(&mut out, s.behind > 0, counted_text("\u{2193}", s.behind, " "), Style { fg: Some(Color::Red), bg: None, bold: false, italic: false });
    push_when(
        &mut out,
        s.worktree_info.len() > 0,
        counted_text(icon, s.worktree_info.len(), " "),
        Style { fg: Some(Color::Magenta), bg: None, bold: false, italic: false },
    );
    push_when(&mut out, s.has_dirty_submodules, owned("\u{25c8} "), Style { fg: Some(Color::LightMagenta), bg: None, bold: false, italic: false });
    push_when(&mut out, s.fetch_failed, owned("\u{26a0} "), Style { fg: Some(Color::DarkGray), bg: None, bold: false, italic: false });
    push_when(&mut out, s.files.len() > 0, counted_text("[", s.files.len(), "] "), Style { fg: Some(Color::Yellow), bg: None, bold: false, italic: false });
    out
}

/// The line of repository `entry`, named `label`, with its worktrees
/// unfolded when `expanded`.
pub fn repo_row(entry: &RepoEntry, expanded: bool, label: String) -> (r: Vec<StyledSpan>)
    ensures
        spans_view(r@) == repo_row_spec(*entry, expanded, label@),
{
    let mut out: Vec<StyledSpan> = Vec::new();
    let dirty = match &entry.status {
        Some(s) => s.is_dirty,
        None => false,
    };
    if entry.git_op {
        push_span(&mut out, owned("~ "), Style { fg: Some(Color::Cyan), bg: None, bold: false, italic: false });
    } else if dirty {
        push_span(&mut out, owned("* "), Style { fg: Some(Color::Yellow), bg: None, bold: false, italic: false });
    } else {
        push_span(&mut out, owned("  "), Style { fg: None, bg: None, bold: false, italic: false });
    }
    let ghost v0 = spans_view(out@);
    assert(v0 =~= seq![repo_marker_spec(*entry)]);
    match &entry.status {
        Some(s) => {
            let more = repo_status_spans(s, expanded);
            push_spans(&mut out, more);
        },
        None => {
            assert(v0 + Seq::<SpanView>::empty() =~= v0);
        },
    }
    push_span(&mut out, label, Style { fg: Some(Color::White), bg: None, bold: false, italic: false });
    out
}

/// The line of worktree `j` of a repository: its branch, or nothing when
/// there is no such worktree.
pub open spec fn worktree_row_spec(e: RepoEntry, j: int) -> Seq<SpanView> {
    let branch = match e.status {
        Some(s) => if 0 <= j < s.worktree_info@.len() {
            s.worktree_info@[j].branch@
        } else {
            Seq::empty()
        },
        None => Seq::empty(),
    };
    seq![("    \u{2387} "@, fg(Color::DarkGray)), (branch, fg(Color::Magenta))]
}

/// The line of worktree `wt_idx` of `entry`.
pub fn worktree_row(entry: &RepoEntry, wt_idx: usize) -> (r: Vec<StyledSpan>)
    ensures
        spans_view(r@) == worktree_row_spec(*entry, wt_idx as int),
{
    let branch = match &entry.status {
        Some(s) => if wt_idx < s.worktree_info.len() {
            s.worktree_info[wt_idx].branch.clone()
        } else {
            String::new()
        },
        None => String::new(),
    };
    let mut out: Vec<StyledSpan> = Vec::new();
    push_span(&mut out, owned("    \u{2387} "), Style { fg: Some(Color::DarkGray), bg: None, bold: false, italic: false });
    push_span(&mut out, branch, Style { fg: Some(Color::Magenta), bg: None, bold: false, italic: false });
    out
}

impl RepoList {
    /// The line of repository `repo_idx`, under its name in the list's
    /// format.
    pub fn render_repo_item(&self, repo_idx: usize) -> (r: Vec<StyledSpan>)
        requires
            repo_idx < self.repos@.len(),
        ensures
            spans_view(r@) == repo_row_spec(
                self.repos@[repo_idx as int],
                is_expanded(self.expanded_repos@, self.repos@[repo_idx as int].path@),
                display_name_spec(
                    self.repos@[repo_idx as int],
                    self.format(),
                    has_duplicate_spec(self.repos@, repo_idx as int),
                ),
            ),
    {
        let entry = &self.repos[repo_idx];
        let expanded = crate::text::contains_string(&self.expanded_repos, entry.path.as_str());
        let label = match self.display_name_for_index(repo_idx) {
            Some(name) => name,
            None => entry.display_name(),
        };
        repo_row(entry, expanded, label)
    }

    /// The line of worktree `wt_idx` of repository `repo_idx`.
    pub fn render_worktree_item(&self, repo_idx: usize, wt_idx: usize) -> (r: Vec<StyledSpan>)
        requires
            repo_idx < self.repos@.len(),
        ensures
            spans_view(r@) == worktree_row_spec(self.repos@[repo_idx as int], wt_idx as int),
    {
        worktree_row(&self.repos[repo_idx], wt_idx)
    }
}

// --- file lists ----------------------------------------------------------------------------------

/// The line of a changed file: a mark when it is marked for the commit, its
/// status badge, a submodule marker for a submodule, and its path
/// (light magenta for a submodule).
pub open spec fn file_row_spec(e: FileEntry, marked: bool) -> Seq<SpanView> {
    seq![
        if marked {
            ("\u{25cf}"@, fg(Color::Green))
        } else {
            (" "@, plain())
        },
        status_badge_spec(status_label(e.status)),
    ] + when(e.is_submodule, (submodule_marker(e.submodule_state), fg(Color::LightMagenta))) + seq![
        (e.path@, fg(if e.is_submodule { Color::LightMagenta } else { Color::White })),
    ]
}

/// The line of changed file `entry`.
pub fn file_row(entry: &FileEntry, marked: bool) -> (r: Vec<StyledSpan>)
    ensures
        spans_view(r@) == file_row_spec(*entry, marked),
{
    let mut out: Vec<StyledSpan> = Vec::new();
    if marked {
        push_span(&mut out, owned("\u{25cf}"), Style { fg: Some(Color::Green), bg: None, bold: false, italic: false });
    } else {
        push_span(&mut out, owned(" "), Style { fg: None, bg: None, bold: false, italic: false });
    }
    let b = status_badge(entry.status.label());
    push_span(&mut out, b.content, b.style);
    let ghost v0 = spans_view(out@);
    if entry.is_submodule {
        push_span(
            &mut out,
            owned(submodule_label(entry.submodule_state)),
            Style { fg: Some(Color::LightMagenta), bg: None, bold: false, italic: false },
        );
    }
    let c = if entry.is_submodule {
        Color::LightMagenta
    } else {
        Color::White
    };
    push_span(&mut out, entry.path.clone(), Style { fg: Some(c), bg: None, bold: false, italic: false });
    out
}

/// The line of a file changed by a commit: its status badge and its path.
pub open spec fn commit_file_row_spec(status: Seq<char>, path: Seq<char>) -> Seq<SpanView> {
    seq![status_badge_spec(status), (path, fg(Color::White))]
}

/// The line of a file changed by a commit.
pub fn commit_file_row(status: &str, path: &str) -> (r: Vec<StyledSpan>)
    ensures
        spans_view(r@) == commit_file_row_spec(status@, path@),
{
    let mut out: Vec<StyledSpan> = Vec::new();
    let b = status_badge(status);
    push_span(&mut out, b.content, b.style);
    push_span(&mut out, owned(path), Style { fg: Some(Color::White), bg: None, bold: false, italic: false });
    out
}

impl FileList {
    /// The line of file `i`, marked when its path is marked.
    pub fn render_file_item(&self, i: usize) -> (r: Vec<StyledSpan>)
        requires
            i < self.files@.len(),
        ensures
            spans_view(r@) == file_row_spec(self.files@[i as int], self.marks().contains(self.files@[i as int].path@)),
    {
        let entry = &self.files[i];
        let marked = crate::text::contains_string(&self.marked, entry.path.as_str());
        file_row(entry, marked)
    }
}

// --- status bar -------------------------------------------------------------------------------------

/// Seconds an error stays on the status bar.
pub const ERROR_SECS: u64 = 5;

/// Seconds a success message stays on the status bar.
pub const SUCCESS_SECS: u64 = 3;

/// Name of a panel on the status bar.
pub open spec fn focus_name(f: FocusPanel) -> Seq<char> {
    match f {
        FocusPanel::Repos => "Repos"@,
        FocusPanel::Changes => "Changes"@,
        FocusPanel::Graph => "Graph"@,
    }
}

/// A badge: ` text ` bold in `f` on `b`.
pub open spec fn badge_spec(text: Seq<char>, f: Color, b: Color) -> SpanView {
    (" "@ + text + " "@, badge_style(f, b))
}

/// The status bar's text when no message is shown: the focused panel,
/// the help and log keys, the single-repository workspace and fast mode.
pub open spec fn idle_line_spec(bar: StatusBar) -> Seq<SpanView> {
    seq![
        badge_spec(focus_name(bar.focus), Color::Black, Color::Cyan),
        ("  "@, plain()),
        badge_spec("h"@, Color::Black, Color::DarkGray),
        (" help"@, plain()),
        ("  "@, plain()),
        badge_spec("o"@, Color::Black, Color::DarkGray),
        (" log"@, plain()),
    ] + match bar.focused_repo {
        Some(repo) => seq![
            ("  "@, plain()),
            badge_spec("FOCUS "@ + repo@, Color::Black, Color::LightMagenta),
            (" Esc unlock"@, plain()),
        ],
        None => Seq::empty(),
    } + if bar.fast_mode {
        seq![("  "@, plain()), badge_spec("FAST"@, Color::Black, Color::Yellow)]
    } else {
        Seq::empty()
    }
}

/// The status bar's text, given how many seconds ago the error and the
/// success message were shown: an error for five seconds, else a success
/// message for three, else the idle line.
pub open spec fn status_line_spec(bar: StatusBar, error_age: u64, success_age: u64) -> Seq<SpanView> {
    if bar.error is Some && error_age < ERROR_SECS {
        seq![badge_spec("ERROR"@, Color::White, Color::Red), (" "@ + bar.error.unwrap().0@, fg(Color::Red))]
    } else if bar.success is Some && success_age < SUCCESS_SECS {
        seq![badge_spec("OK"@, Color::Black, Color::Green), (" "@ + bar.success.unwrap().0@, fg(Color::Green))]
    } else {
        idle_line_spec(bar)
    }
}

fn badge(text: &str, f: Color, b: Color) -> (r: StyledSpan)
    ensures
        span_view(r) == badge_spec(text@, f, b),
{
    let mut s = owned(" ");
    push_str(&mut s, text);
    push_str(&mut s, " ");
    styled(s, Style { fg: Some(f), bg: Some(b), bold: true, italic: false })
}

fn push_spans(out: &mut Vec<StyledSpan>, more: Vec<StyledSpan>)
    ensures
        spans_view(final(out)@) == spans_view(old(out)@) + spans_view(more@),
{
    let ghost start = spans_view(out@);
    let ghost m = spans_view(more@);
    let mut i: usize = 0;
    while i < more.len()
        invariant
            i <= more@.len(),
            spans_view(more@) == m,
            spans_view(out@) == start + m.take(i as int),
        decreases more@.len() - i,
    {
        let sp = &more[i];
        push_span(out, sp.content.clone(), sp.style);
        assert(m.take(i + 1) =~= m.take(i as int).push(m[i as int]));
        i = i + 1;
    }
    assert(m.take(i as int) =~= m);
}

fn idle_line(bar: &StatusBar) -> (r: Vec<StyledSpan>)
    ensures
        spans_view(r@) == idle_line_spec(*bar),
{
    let name = match bar.focus {
        FocusPanel::Repos => "Repos",
        FocusPanel::Changes => "Changes",
        FocusPanel::Graph => "Graph",
    };
    let mut out: Vec<StyledSpan> = Vec::new();
    let b = badge(name, Color::Black, Color::Cyan);
    push_span(&mut out, b.content, b.style);
    push_span(&mut out, owned("  "), Style { fg: None, bg: None, bold: false, italic: false });
    let b = badge("h", Color::Black, Color::DarkGray);
    push_span(&mut out, b.content, b.style);
    push_span(&mut out, owned(" help"), Style { fg: None, bg: None, bold: false, italic: false });
    push_span(&mut out, owned("  "), Style { fg: None, bg: None, bold: false, italic: false });
    let b = badge("o", Color::Black, Color::DarkGray);
    push_span(&mut out, b.content, b.style);
    push_span(&mut out, owned(" log"), Style { fg: None, bg: None, bold: false, italic: false });
    let ghost v0 = spans_view(out@);
    let mut more: Vec<StyledSpan> = Vec::new();
    match &bar.focused_repo {
        Some(repo) => {
            push_span(&mut more, owned("  "), Style { fg: None, bg: None, bold: false, italic: false });
            let mut t = owned("FOCUS ");
            push_str(&mut t, repo.as_str());
            let b = badge(t.as_str(), Color::Black, Color::LightMagenta);
            push_span(&mut more, b.content, b.style);
            push_span(&mut more, owned(" Esc unlock"), Style { fg: None, bg: None, bold: false, italic: false });
        },
        None => {},
    }
    if bar.fast_mode {
        push_span(&mut more, owned("  "), Style { fg: None, bg: None, bold: false, italic: false });
        let b = badge("FAST", Color::Black, Color::Yellow);
        push_span(&mut more, b.content, b.style);
    }
    let ghost m = spans_view(more@);
    push_spans(&mut out, more);
    assert(spans_view(out@) =~= idle_line_spec(*bar));
    out
}

impl StatusBar {
    /// The status bar's text, given the seconds since the error and since
    /// the success message were shown (each read only when there is one).
    pub fn status_line(&self, error_age: u64, success_age: u64) -> (r: Vec<StyledSpan>)
        ensures
            spans_view(r@) == status_line_spec(*self, error_age, success_age),
    {
        match &self.error {
            Some(e) => {
                if error_age < ERROR_SECS {
                    let mut out: Vec<StyledSpan> = Vec::new();
                    let b = badge("ERROR", Color::White, Color::Red);
                    push_span(&mut out, b.content, b.style);
                    let mut t = owned(" ");
                    push_str(&mut t, e.0.as_str());
                    push_span(&mut out, t, Style { fg: Some(Color::Red), bg: None, bold: false, italic: false });
                    return out;
                }
            },
            None => {},
        }
        match &self.success {
            Some(s) => {
                if success_age < SUCCESS_SECS {
                    let mut out: Vec<StyledSpan> = Vec::new();
                    let b = badge("OK", Color::Black, Color::Green);
                    push_span(&mut out, b.content, b.style);
                    let mut t = owned(" ");
                    push_str(&mut t, s.0.as_str());
                    push_span(&mut out, t, Style { fg: Some(Color::Green), bg: None, bold: false, italic: false });
                    return out;
                }
            },
            None => {},
        }
        idle_line(self)
    }
}

} // verus!
