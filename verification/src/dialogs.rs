//! State of the modal dialogs and the status bar.
use vstd::prelude::*;
use crate::config::home_dir;
use crate::input::{edit_spec, SingleLineInput};
use crate::paths::{expand_tilde_spec, expand_tilde_with};
use crate::repo::RepoId;
use crate::text::{decimal, owned, push_decimal, push_str, str_chars, chars_to_string, ends_with, ends_with_chars};
use crate::ui::{FocusPanel, KeyCode, KeyEvent};

verus! {

/// What a text dialog answers to Enter and Esc.
#[derive(Clone, Copy, Debug, PartialEq, Eq, Structural)]
pub enum InputOutcome {
    Cancel,
    Confirm,
}

/// Answer of a text dialog to a key: Esc cancels, Enter confirms.
pub open spec fn outcome_spec(key: KeyEvent) -> Option<InputOutcome> {
    if key.code == KeyCode::Esc {
        Some(InputOutcome::Cancel)
    } else if key.code == KeyCode::Enter {
        Some(InputOutcome::Confirm)
    } else {
        None
    }
}

/// The commit-message dialog.
#[derive(Debug)]
pub struct CommitInput {
    pub visible: bool,
    repo_id: Option<RepoId>,
    repo_name: String,
    /// Files marked for a partial commit; 0 commits everything.
    marked_count: usize,
    input: SingleLineInput,
}

impl CommitInput {
    /// Whether the dialog is open.
    pub closed spec fn shown(self) -> bool {
        self.visible
    }

    pub closed spec fn repo(self) -> Option<RepoId> {
        self.repo_id
    }

    pub closed spec fn name(self) -> Seq<char> {
        self.repo_name@
    }

    pub closed spec fn marked(self) -> usize {
        self.marked_count
    }

    pub closed spec fn text(self) -> Seq<char> {
        self.input.text()
    }

    pub closed spec fn cursor_at(self) -> int {
        self.input.cursor_at()
    }

    /// A hidden, empty dialog.
    pub fn new() -> (r: Self)
        ensures
            !r.shown(),
            r.repo() is None,
            r.name().len() == 0,
            r.marked() == 0,
            r.text().len() == 0,
            r.cursor_at() == 0,
    {
        CommitInput {
            visible: false,
            repo_id: None,
            repo_name: String::new(),
            marked_count: 0,
            input: SingleLineInput::new(),
        }
    }

    /// Opens the dialog for a repository with an empty message.
    pub fn show(&mut self, repo_id: RepoId, repo_name: String, marked_count: usize)
        ensures
            final(self).shown(),
            final(self).repo() == Some(repo_id),
            final(self).name() == repo_name@,
            final(self).marked() == marked_count,
            final(self).text().len() == 0,
            final(self).cursor_at() == 0,
    {
        self.visible = true;
        self.repo_id = Some(repo_id);
        self.repo_name = repo_name;
        self.marked_count = marked_count;
        self.input.clear();
    }

    /// Closes the dialog and forgets the repository and message.
    pub fn close(&mut self)
        ensures
            !final(self).shown(),
            final(self).repo() is None,
            final(self).name().len() == 0,
            final(self).marked() == old(self).marked(),
            final(self).text().len() == 0,
    {
        self.visible = false;
        self.repo_id = None;
        self.repo_name = String::new();
        self.input.clear();
    }

    /// The repository the message is for.
    pub fn repo_id(&self) -> (r: Option<RepoId>)
        ensures
            r == self.repo(),
    {
        match &self.repo_id {
            Some(id) => Some(id.clone()),
            None => None,
        }
    }

    /// The message typed so far.
    pub fn message(&self) -> (r: &str)
        ensures
            r@ == self.text(),
    {
        self.input.value()
    }

    /// Esc cancels, Enter commits, other keys edit the message.
    pub fn handle_key_event(&mut self, key: KeyEvent) -> (r: Option<InputOutcome>)
        ensures
            r == outcome_spec(key),
            r is None ==> final(self).text() == edit_spec(old(self).text(), old(self).cursor_at(), key).0,
            final(self).shown() == old(self).shown(),
            final(self).repo() == old(self).repo(),
    {
        self.input.handle_key_event(key, InputOutcome::Cancel, InputOutcome::Confirm)
    }

    /// Title of the message box.
    pub fn title(&self) -> (r: String)
        ensures
            self.marked() > 0 ==> r@ == " Message (Enter: commit "@ + decimal(self.marked() as nat)
                + " marked file(s), Esc: cancel) "@,
            self.marked() == 0 ==> r@ == " Message (Enter: git add . && commit, Esc: cancel) "@,
    {
        if self.marked_count > 0 {
            let mut s = owned(" Message (Enter: commit ");
            push_decimal(&mut s, self.marked_count as u64);
            push_str(&mut s, " marked file(s), Esc: cancel) ");
            s
        } else {
            owned(" Message (Enter: git add . && commit, Esc: cancel) ")
        }
    }

    /// Label in front of the message.
    pub fn label(&self) -> (r: String)
        ensures
            r@ == " Commit "@ + self.name() + ": "@,
    {
        let mut s = owned(" Commit ");
        push_str(&mut s, self.repo_name.as_str());
        push_str(&mut s, ": ");
        s
    }

    /// Text before the cursor, the character under it (a space at the end),
    /// and the text after that character.
    pub fn cursor_parts(&self) -> (r: (String, String, String))
        ensures
            r.0@ == self.text().take(self.cursor_at()),
            r.1@ == (if self.cursor_at() < self.text().len() { seq![self.text()[self.cursor_at()]] } else { seq![' '] }),
            r.2@ == (if self.cursor_at() < self.text().len() { self.text().skip(self.cursor_at() + 1) } else { Seq::<char>::empty() }),
    {
        self.input.cursor_parts()
    }
}

/// The dialog that names a new GitHub repository.
#[derive(Debug)]
pub struct GitHubRepoInput {
    pub visible: bool,
    repo_id: Option<RepoId>,
    private: bool,
    local_name: String,
    input: SingleLineInput,
}

impl GitHubRepoInput {
    /// Whether the dialog is open.
    pub closed spec fn shown(self) -> bool {
        self.visible
    }

    pub closed spec fn repo(self) -> Option<RepoId> {
        self.repo_id
    }

    pub closed spec fn is_private(self) -> bool {
        self.private
    }

    pub closed spec fn local(self) -> Seq<char> {
        self.local_name@
    }

    pub closed spec fn text(self) -> Seq<char> {
        self.input.text()
    }

    pub closed spec fn cursor_at(self) -> int {
        self.input.cursor_at()
    }

    /// A hidden dialog for a private repository.
    pub fn new() -> (r: Self)
        ensures
            !r.shown(),
            r.repo() is None,
            r.is_private(),
            r.local().len() == 0,
            r.text().len() == 0,
            r.cursor_at() == 0,
    {
        GitHubRepoInput {
            visible: false,
            repo_id: None,
            private: true,
            local_name: String::new(),
            input: SingleLineInput::new(),
        }
    }

    /// Opens the dialog with the local folder name as the proposed name.
    pub fn show(&mut self, repo_id: RepoId, private: bool, local_name: String)
        ensures
            final(self).shown(),
            final(self).repo() == Some(repo_id),
            final(self).is_private() == private,
            final(self).local() == local_name@,
            final(self).text() == local_name@,
            final(self).cursor_at() == local_name@.len(),
    {
        self.visible = true;
        self.repo_id = Some(repo_id);
        self.private = private;
        self.input.set(local_name.clone());
        self.local_name = local_name;
    }

    /// Closes the dialog and resets it.
    pub fn close(&mut self)
        ensures
            !final(self).shown(),
            final(self).repo() is None,
            final(self).is_private(),
            final(self).local().len() == 0,
            final(self).text().len() == 0,
    {
        self.visible = false;
        self.repo_id = None;
        self.private = true;
        self.local_name = String::new();
        self.input.clear();
    }

    /// The repository to publish.
    pub fn repo_id(&self) -> (r: Option<RepoId>)
        ensures
            r == self.repo(),
    {
        match &self.repo_id {
            Some(id) => Some(id.clone()),
            None => None,
        }
    }

    /// Whether the new repository is private.
    pub fn private(&self) -> (r: bool)
        ensures
            r == self.is_private(),
    {
        self.private
    }

    /// The name typed so far.
    pub fn name(&self) -> (r: &str)
        ensures
            r@ == self.text(),
    {
        self.input.value()
    }

    /// Esc cancels, Enter creates, other keys edit the name.
    pub fn handle_key_event(&mut self, key: KeyEvent) -> (r: Option<InputOutcome>)
        ensures
            r == outcome_spec(key),
            r is None ==> final(self).text() == edit_spec(old(self).text(), old(self).cursor_at(), key).0,
            final(self).shown() == old(self).shown(),
            final(self).repo() == old(self).repo(),
            final(self).is_private() == old(self).is_private(),
    {
        self.input.handle_key_event(key, InputOutcome::Cancel, InputOutcome::Confirm)
    }

    /// Label in front of the name.
    pub fn label(&self) -> (r: String)
        ensures
            r@ == " GitHub "@ + (if self.is_private() { "private"@ } else { "public"@ }) + " repo: "@,
    {
        let mut s = owned(" GitHub ");
        if self.private {
            push_str(&mut s, "private");
        } else {
            push_str(&mut s, "public");
        }
        push_str(&mut s, " repo: ");
        s
    }

    /// Text before the cursor, the character under it (a space at the end),
    /// and the text after that character.
    pub fn cursor_parts(&self) -> (r: (String, String, String))
        ensures
            r.0@ == self.text().take(self.cursor_at()),
            r.1@ == (if self.cursor_at() < self.text().len() { seq![self.text()[self.cursor_at()]] } else { seq![' '] }),
            r.2@ == (if self.cursor_at() < self.text().len() { self.text().skip(self.cursor_at() + 1) } else { Seq::<char>::empty() }),
    {
        self.input.cursor_parts()
    }
}

/// A message box closed with Enter, Esc or `q`.
#[derive(Debug)]
pub struct NoticeDialog {
    pub visible: bool,
    message: String,
}

/// Keys that close a notice.
pub open spec fn closes_notice(key: KeyEvent) -> bool {
    key.code == KeyCode::Enter || key.code == KeyCode::Esc || key.code == KeyCode::Char('q')
}

impl NoticeDialog {
    /// Whether the dialog is open.
    pub closed spec fn shown(self) -> bool {
        self.visible
    }

    pub closed spec fn text(self) -> Seq<char> {
        self.message@
    }

    /// A hidden, empty notice.
    pub fn new() -> (r: Self)
        ensures
            !r.shown(),
            r.text().len() == 0,
    {
        NoticeDialog { visible: false, message: String::new() }
    }

    /// Shows `message`.
    pub fn show(&mut self, message: String)
        ensures
            final(self).shown(),
            final(self).text() == message@,
    {
        self.visible = true;
        self.message = message;
    }

    /// Closes the notice.
    pub fn close(&mut self)
        ensures
            !final(self).shown(),
            final(self).text().len() == 0,
    {
        self.visible = false;
        self.message = String::new();
    }

    /// The message shown.
    pub fn message(&self) -> (r: &str)
        ensures
            r@ == self.text(),
    {
        self.message.as_str()
    }

    /// Enter, Esc and `q` close the notice; other keys do nothing.
    pub fn handle_key_event(&mut self, key: KeyEvent)
        ensures
            closes_notice(key) ==> !final(self).shown() && final(self).text().len() == 0,
            !closes_notice(key) ==> final(self).shown() == old(self).shown() && final(self).text() == old(self).text(),
    {
        match key.code {
            KeyCode::Enter | KeyCode::Esc | KeyCode::Char('q') => self.close(),
            _ => {},
        }
    }
}

/// A yes/no question that carries the action to run on yes.
#[derive(Debug)]
pub struct ConfirmDialog<A> {
    pub visible: bool,
    message: String,
    pending_action: Option<A>,
}

impl<A> ConfirmDialog<A> {
    /// Whether the dialog is open.
    pub closed spec fn shown(self) -> bool {
        self.visible
    }

    pub closed spec fn text(self) -> Seq<char> {
        self.message@
    }

    pub closed spec fn pending(self) -> Option<A> {
        self.pending_action
    }

    /// A hidden dialog.
    pub fn new() -> (r: Self)
        ensures
            !r.shown(),
            r.text().len() == 0,
            r.pending() is None,
    {
        ConfirmDialog { visible: false, message: String::new(), pending_action: None }
    }

    /// The question.
    pub fn message(&self) -> (r: &str)
        ensures
            r@ == self.text(),
    {
        self.message.as_str()
    }

    /// Asks `message`; `action` runs when it is confirmed.
    pub fn show(&mut self, message: String, action: A)
        ensures
            final(self).shown(),
            final(self).text() == message@,
            final(self).pending() == Some(action),
    {
        self.visible = true;
        self.message = message;
        self.pending_action = Some(action);
    }

    /// Closes the dialog and drops the action.
    pub fn close(&mut self)
        ensures
            !final(self).shown(),
            final(self).text().len() == 0,
            final(self).pending() is None,
    {
        self.visible = false;
        self.message = String::new();
        self.pending_action = None;
    }

    /// `y` or Enter confirm and hand back the action; `n` or Esc cancel;
    /// either closes the dialog. Other keys do nothing.
    pub fn handle_key_event(&mut self, key: KeyEvent) -> (r: Option<A>)
        ensures
            (key.code == KeyCode::Char('y') || key.code == KeyCode::Enter) ==> r == old(self).pending() && !final(self).shown() && final(self).pending() is None,
            (key.code == KeyCode::Char('n') || key.code == KeyCode::Esc) ==> r is None && !final(self).shown()
                && final(self).pending() is None,
            !(key.code == KeyCode::Char('y') || key.code == KeyCode::Enter || key.code == KeyCode::Char('n')
                || key.code == KeyCode::Esc) ==> r is None && final(self).shown() == old(self).shown() && final(self).pending() == old(self).pending(),
    {
        match key.code {
            KeyCode::Char('y') | KeyCode::Enter => {
                let action = self.pending_action.take();
                self.close();
                action
            },
            KeyCode::Char('n') | KeyCode::Esc => {
                self.close();
                None
            },
            _ => None,
        }
    }
}

/// The add-repository dialog: a path field with directory completion.
#[derive(Debug)]
pub struct PathInput {
    pub visible: bool,
    input: SingleLineInput,
    completions: Vec<String>,
    completion_index: Option<usize>,
}

/// What the add-repository dialog asks for after a key.
#[derive(Debug)]
pub enum PathOutcome {
    /// Nothing to do.
    Nothing,
    /// Add the repository at this path.
    AddRepo(String),
    /// List the directory named by the field and offer completions.
    Complete,
}

impl PathInput {
    /// Whether the dialog is open.
    pub closed spec fn shown(self) -> bool {
        self.visible
    }

    pub closed spec fn text(self) -> Seq<char> {
        self.input.text()
    }

    pub closed spec fn cursor_at(self) -> int {
        self.input.cursor_at()
    }

    pub closed spec fn candidates(self) -> Seq<String> {
        self.completions@
    }

    pub closed spec fn candidate(self) -> Option<usize> {
        self.completion_index
    }

    /// A hidden, empty dialog.
    pub fn new() -> (r: Self)
        ensures
            !r.shown(),
            r.text().len() == 0,
            r.candidates().len() == 0,
            r.candidate() is None,
            r.cursor_at() == 0,
    {
        PathInput { visible: false, input: SingleLineInput::new(), completions: Vec::new(), completion_index: None }
    }

    /// Opens the dialog empty.
    pub fn show(&mut self)
        ensures
            final(self).shown(),
            final(self).text().len() == 0,
            final(self).candidates().len() == 0,
            final(self).candidate() is None,
    {
        self.visible = true;
        self.reset();
    }

    /// Closes the dialog and empties it.
    pub fn close(&mut self)
        ensures
            !final(self).shown(),
            final(self).text().len() == 0,
            final(self).candidates().len() == 0,
            final(self).candidate() is None,
    {
        self.visible = false;
        self.reset();
    }

    /// Empties the field and the completions.
    pub fn reset(&mut self)
        ensures
            final(self).shown() == old(self).shown(),
            final(self).text().len() == 0,
            final(self).candidates().len() == 0,
            final(self).candidate() is None,
    {
        self.input.clear();
        self.clear_completions();
    }

    /// Forgets the offered completions.
    pub fn clear_completions(&mut self)
        ensures
            final(self).shown() == old(self).shown(),
            final(self).text() == old(self).text(),
            final(self).cursor_at() == old(self).cursor_at(),
            final(self).candidates().len() == 0,
            final(self).candidate() is None,
    {
        self.completions = Vec::new();
        self.completion_index = None;
    }

    /// The typed path with a leading `~` expanded against the user's home
    /// directory (unchanged when there is none), as completion lists it.
    pub fn expanded_value(&self) -> (r: String)
        ensures
            r@ == expand_tilde_spec(self.text(), None) || exists|h: Seq<char>|
                r@ == #[trigger] expand_tilde_spec(self.text(), Some(h)),
    {
        let home = home_dir();
        match &home {
            Some(h) => expand_tilde_with(self.value(), Some(h.as_str())),
            None => expand_tilde_with(self.value(), None),
        }
    }

    /// The path typed so far.
    pub fn value(&self) -> (r: &str)
        ensures
            r@ == self.text(),
    {
        self.input.value()
    }

    /// Text before the cursor, the character under it (a space at the end),
    /// and the text after that character.
    pub fn cursor_parts(&self) -> (r: (String, String, String))
        ensures
            r.0@ == self.text().take(self.cursor_at()),
            r.1@ == (if self.cursor_at() < self.text().len() { seq![self.text()[self.cursor_at()]] } else { seq![' '] }),
            r.2@ == (if self.cursor_at() < self.text().len() { self.text().skip(self.cursor_at() + 1) } else { Seq::<char>::empty() }),
    {
        self.input.cursor_parts()
    }

    /// Esc closes; Enter closes and asks to add the typed path (with `~`
    /// expanded against `home`), or just closes when nothing was typed; Tab
    /// asks for completion; other keys edit, and a change of the text drops
    /// the completions.
    pub fn handle_key_event_with_home(&mut self, key: KeyEvent, home: Option<&str>) -> (r: PathOutcome)
        ensures
            key.code == KeyCode::Esc ==> r is Nothing && !final(self).shown() && final(self).text().len() == 0,
            key.code == KeyCode::Enter ==> !final(self).shown() && final(self).text().len() == 0 && (if old(self).text().len() == 0 {
                r is Nothing
            } else {
                r matches PathOutcome::AddRepo(p) && p@ == expand_tilde_spec(
                    old(self).text(),
                    match home {
                        Some(h) => Some(h@),
                        None => None,
                    },
                )
            }),
            key.code == KeyCode::Tab ==> r is Complete && *final(self) == *old(self),
            key.code != KeyCode::Esc && key.code != KeyCode::Enter && key.code != KeyCode::Tab ==> {
                let e = edit_spec(old(self).text(), old(self).cursor_at(), key);
                &&& r is Nothing
                &&& final(self).shown() == old(self).shown()
                &&& final(self).text() == e.0
                &&& final(self).cursor_at() == e.1
                &&& e.2 ==> final(self).candidates().len() == 0 && final(self).candidate() is None
                &&& !e.2 ==> final(self).candidates() == old(self).candidates() && final(self).candidate() == old(self).candidate()
            },
    {
        match key.code {
            KeyCode::Esc => {
                self.close();
                PathOutcome::Nothing
            },
            KeyCode::Enter => {
                if self.input.is_empty() {
                    self.close();
                    return PathOutcome::Nothing;
                }
                let path = expand_tilde_with(self.input.value(), home);
                self.close();
                PathOutcome::AddRepo(path)
            },
            KeyCode::Tab => PathOutcome::Complete,
            _ => {
                if self.input.handle_edit_key_event(key) {
                    self.clear_completions();
                }
                PathOutcome::Nothing
            },
        }
    }

    /// [`PathInput::handle_key_event_with_home`] with the current user's home
    /// directory.
    pub fn handle_key_event(&mut self, key: KeyEvent) -> (r: PathOutcome)
        ensures
            key.code == KeyCode::Esc ==> r is Nothing && !final(self).shown(),
            key.code == KeyCode::Enter ==> !final(self).shown() && (old(self).text().len() == 0 <==> r is Nothing),
            key.code == KeyCode::Tab ==> r is Complete && *final(self) == *old(self),
            key.code != KeyCode::Esc && key.code != KeyCode::Enter && key.code != KeyCode::Tab ==> r is Nothing
                && final(self).text() == edit_spec(old(self).text(), old(self).cursor_at(), key).0,
    {
        if key.code == KeyCode::Enter && !self.input.is_empty() {
            let home = home_dir();
            match &home {
                Some(h) => self.handle_key_event_with_home(key, Some(h.as_str())),
                None => self.handle_key_event_with_home(key, None),
            }
        } else {
            self.handle_key_event_with_home(key, None)
        }
    }

    /// Offers the next completion when completions are on offer; tells
    /// whether it did (else the directory must be listed).
    pub fn cycle_completion(&mut self) -> (r: bool)
        ensures
            r == (old(self).candidates().len() > 0),
            r ==> {
                let n = old(self).candidates().len();
                let next = match old(self).candidate() {
                    Some(i) => (i + 1) % (n as int),
                    None => 0,
                };
                &&& final(self).candidate() == Some(next as usize)
                &&& final(self).candidates() == old(self).candidates()
                &&& final(self).text() == old(self).candidates()[next]@
            },
            !r ==> *final(self) == *old(self),
    {
        let n = self.completions.len();
        if n == 0 {
            return false;
        }
        let next = match self.completion_index {
            Some(i) => (i % n + 1) % n,
            None => 0,
        };
        proof {
            match self.completion_index {
                Some(i) => {
                    let a = i as int;
                    let m = n as int;
                    assert(((a % m) + 1) % m == (a + 1) % m) by (nonlinear_arith)
                        requires m > 0;
                },
                None => {},
            }
        }
        self.completion_index = Some(next);
        let c = self.completions[next].clone();
        self.input.set(c);
        true
    }

    /// Takes the sorted matches of a directory listing: one match is filled
    /// in; several are offered in turn, starting with the first.
    pub fn apply_matches(&mut self, matches: Vec<String>)
        ensures
            matches@.len() == 0 ==> *final(self) == *old(self),
            matches@.len() == 1 ==> final(self).text() == matches@[0]@ && final(self).candidates() == old(self).candidates() && final(self).candidate() == old(self).candidate(),
            matches@.len() > 1 ==> final(self).text() == matches@[0]@ && final(self).candidates() == matches@
                && final(self).candidate() == Some(0usize),
    {
        let n = matches.len();
        if n == 0 {
            return;
        }
        if n == 1 {
            let m = matches[0].clone();
            self.input.set(m);
            return;
        }
        let first = matches[0].clone();
        self.completions = matches;
        self.completion_index = Some(0);
        self.input.set(first);
    }

    /// `(i + 1)/n` shown beside the field while completions are offered.
    pub fn completion_counter(&self) -> (r: Option<(usize, usize)>)
        ensures
            match self.candidate() {
                Some(i) => r == Some((i, self.candidates().len() as usize)),
                None => r is None,
            },
    {
        match self.completion_index {
            Some(i) => Some((i, self.completions.len())),
            None => None,
        }
    }
}

/// Field text after choosing directory `name` for the typed `input` whose
/// last part is `prefix`.
pub open spec fn completed_path_spec(input: Seq<char>, prefix: Seq<char>, name: Seq<char>) -> Seq<char> {
    if ends_with(input, seq!['/']) || prefix.len() == 0 {
        input + name + seq!['/']
    } else {
        let k = crate::text::last_index_of(input, '/', input.len() as int);
        let base = if k >= 0 { input.take(k) } else { Seq::<char>::empty() };
        if base.len() == 0 { name + seq!['/'] } else { base + seq!['/'] + name + seq!['/'] }
    }
}

/// Completes the typed path with directory `name`, ending in `/`.
pub fn completed_path(input: &str, prefix: &str, name: &str) -> (r: String)
    ensures
        r@ == completed_path_spec(input@, prefix@, name@),
{
    let v = str_chars(input);
    let slash = vec!['/'];
    assert(slash@ =~= seq!['/']);
    if ends_with_chars(v.as_slice(), slash.as_slice()) || prefix.unicode_len() == 0 {
        let mut s = owned(input);
        push_str(&mut s, name);
        crate::text::push_chars(&mut s, slash.as_slice());
        return s;
    }
    proof {
        crate::text::lemma_last_index_of(v@, '/', v@.len() as int);
    }
    let base = match crate::text::last_index_of_exec(v.as_slice(), '/', v.len()) {
        Some(k) => crate::text::sub_chars(v.as_slice(), 0, k),
        None => Vec::new(),
    };
    proof {
        let k = crate::text::last_index_of(v@, '/', v@.len() as int);
        if k >= 0 {
            assert(base@ =~= v@.take(k));
        }
    }
    let mut s = String::new();
    if base.len() > 0 {
        crate::text::push_chars(&mut s, base.as_slice());
        crate::text::push_chars(&mut s, slash.as_slice());
    }
    push_str(&mut s, name);
    crate::text::push_chars(&mut s, slash.as_slice());
    assert(s@ =~= completed_path_spec(input@, prefix@, name@));
    s
}

/// Whether directory `name` completes `prefix`: it starts with it, and it
/// is hidden only when the prefix is.
pub open spec fn completes(name: Seq<char>, prefix: Seq<char>) -> bool {
    crate::text::starts_with(name, prefix) && !(crate::text::starts_with(name, seq!['.'])
        && !crate::text::starts_with(prefix, seq!['.']))
}

/// Completions offered by the first `k` directory names of a listing.
pub open spec fn completions_upto(input: Seq<char>, prefix: Seq<char>, names: Seq<String>, k: int) -> Seq<Seq<char>>
    decreases k,
{
    if k <= 0 {
        Seq::empty()
    } else {
        let prev = completions_upto(input, prefix, names, k - 1);
        if completes(names[k - 1]@, prefix) {
            prev.push(completed_path_spec(input, prefix, names[k - 1]@))
        } else {
            prev
        }
    }
}

/// The completions of `input` from the directory names `names` of its
/// directory, where `prefix` is the part being completed: the names that
/// complete the prefix, completed onto the input, in ascending order.
pub fn path_matches(input: &str, prefix: &str, names: &Vec<String>) -> (r: Vec<String>)
    ensures
        exists|p: Seq<usize>|
            crate::sort::stable_order_spec(completions_upto(input@, prefix@, names@, names@.len() as int), p)
                && r@.len() == p.len() && forall|i: int| 0 <= i < p.len() ==> #[trigger] r@[i]@ == completions_upto(
                input@,
                prefix@,
                names@,
                names@.len() as int,
            )[p[i] as int],
{
    let pc = str_chars(prefix);
    let dot = vec!['.'];
    assert(dot@ =~= seq!['.']);
    let hidden_prefix = crate::text::starts_with_chars(pc.as_slice(), dot.as_slice());
    let mut found: Vec<String> = Vec::new();
    let mut k: usize = 0;
    while k < names.len()
        invariant
            k <= names@.len(),
            pc@ == prefix@,
            dot@ == seq!['.'],
            hidden_prefix == crate::text::starts_with(prefix@, seq!['.']),
            crate::text::string_views(found@) == completions_upto(input@, prefix@, names@, k as int),
        decreases names@.len() - k,
    {
        let nc = str_chars(names[k].as_str());
        let ok = crate::text::starts_with_chars(nc.as_slice(), pc.as_slice()) && !(crate::text::starts_with_chars(
            nc.as_slice(),
            dot.as_slice(),
        ) && !hidden_prefix);
        if ok {
            let ghost before = found@;
            found.push(completed_path(input, prefix, names[k].as_str()));
            assert(crate::text::string_views(found@) =~= crate::text::string_views(before).push(
                completed_path_spec(input@, prefix@, names@[k as int]@),
            ));
        }
        k = k + 1;
    }
    crate::sort::sort_strings(found)
}

/// An instant of the monotonic clock.
#[verifier::external_type_specification]
#[verifier::external_body]
pub struct ExInstant(std::time::Instant);

/// The bottom line: focus, transient messages and mode.
#[derive(Debug)]
pub struct StatusBar {
    pub focus: FocusPanel,
    /// Last error and when it was shown.
    pub error: Option<(String, std::time::Instant)>,
    /// Last success message and when it was shown.
    pub success: Option<(String, std::time::Instant)>,
    pub fast_mode: bool,
    pub focused_repo: Option<String>,
}

impl StatusBar {
    /// Focus on the repository list and no message.
    pub fn new() -> (r: Self)
        ensures
            r.focus == FocusPanel::Repos,
            r.error is None,
            r.success is None,
            !r.fast_mode,
            r.focused_repo is None,
    {
        StatusBar { focus: FocusPanel::Repos, error: None, success: None, fast_mode: false, focused_repo: None }
    }
}

} // verus!
