//! Small rules of the application: clipboard encoding, repository-name
//! checks, sort order, git failure explanations, diff texts, repository
//! exclusion and which file events matter.
use vstd::prelude::*;
use vstd::string::StringSliceAdditionalSpecFns;
use vstd::utf8::is_char_boundary;
use crate::paths::{file_name, file_name_spec, is_component, path_components};
use crate::status::SubmoduleState;
use crate::text::{
    char_from_ascii_code, chars_eq, contains_chars, contains_seq, is_ascii_alnum, is_ascii_alnum_char, lowercase, owned,
    push_char, push_str, str_chars, str_eq, string_views, to_lowercase,
};

verus! {

/// Owned copies of command-line arguments.
pub fn git_args(args: &Vec<&str>) -> (r: Vec<String>)
    ensures
        r@.len() == args@.len(),
        forall|i: int| 0 <= i < args@.len() ==> #[trigger] r@[i]@ == args@[i]@,
{
    let mut r: Vec<String> = Vec::new();
    let mut i: usize = 0;
    while i < args.len()
        invariant
            i <= args@.len(),
            r@.len() == i,
            forall|j: int| 0 <= j < i ==> #[trigger] r@[j]@ == args@[j]@,
        decreases args@.len() - i,
    {
        r.push(owned(args[i]));
        i = i + 1;
    }
    r
}

/// Character of a base64 digit.
pub open spec fn b64_char(i: int) -> char {
    if i < 26 {
        ('A' as int + i) as char
    } else if i < 52 {
        ('a' as int + (i - 26)) as char
    } else if i < 62 {
        ('0' as int + (i - 52)) as char
    } else if i == 62 {
        '+'
    } else {
        '/'
    }
}

/// Base64 of one group of up to three bytes, padded with `=`.
pub open spec fn b64_group(g: Seq<u8>) -> Seq<char> {
    let b0 = g[0] as int;
    let b1 = if g.len() > 1 { g[1] as int } else { 0 };
    let b2 = if g.len() > 2 { g[2] as int } else { 0 };
    let n = b0 * 65536 + b1 * 256 + b2;
    seq![b64_char((n / 262144) % 64), b64_char((n / 4096) % 64)] + (if g.len() > 1 {
        seq![b64_char((n / 64) % 64)]
    } else {
        seq!['=']
    }) + (if g.len() > 2 { seq![b64_char(n % 64)] } else { seq!['='] })
}

/// Standard base64 (with padding) of a byte string.
pub open spec fn base64_spec(d: Seq<u8>) -> Seq<char>
    decreases d.len(),
{
    if d.len() == 0 {
        Seq::empty()
    } else if d.len() <= 3 {
        b64_group(d)
    } else {
        b64_group(d.take(3)) + base64_spec(d.skip(3))
    }
}

fn b64_digit(i: u32) -> (c: char)
    requires
        i < 64,
    ensures
        c == b64_char(i as int),
{
    if i < 26 {
        char_from_ascii_code(65 + i)
    } else if i < 52 {
        char_from_ascii_code(97 + (i - 26))
    } else if i < 62 {
        char_from_ascii_code(48 + (i - 52))
    } else if i == 62 {
        '+'
    } else {
        '/'
    }
}

/// Base64 digits of one group of one to three bytes.
fn group_chars(g: &[u8]) -> (r: Vec<char>)
    requires
        1 <= g@.len() <= 3,
    ensures
        r@ == b64_group(g@),
{
    let len = g.len();
    let b0 = g[0] as u32;
    let b1 = if len > 1 {
        g[1] as u32
    } else {
        0
    };
    let b2 = if len > 2 {
        g[2] as u32
    } else {
        0
    };
    let v = b0 * 65536 + b1 * 256 + b2;
    let mut out: Vec<char> = Vec::new();
    out.push(b64_digit((v / 262144) % 64));
    out.push(b64_digit((v / 4096) % 64));
    if len > 1 {
        out.push(b64_digit((v / 64) % 64));
    } else {
        out.push('=');
    }
    if len > 2 {
        out.push(b64_digit(v % 64));
    } else {
        out.push('=');
    }
    assert(out@ =~= b64_group(g@));
    out
}

/// Base64 encoding of `data`, as used for the terminal clipboard sequence.
#[verifier::rlimit(40)]
pub fn base64_encode(data: &[u8]) -> (r: String)
    ensures
        r@ == base64_spec(data@),
{
    let mut out: Vec<char> = Vec::new();
    let mut i: usize = 0;
    let n = data.len();
    assert(data@.skip(0) =~= data@);
    assert(out@ + base64_spec(data@) =~= base64_spec(data@));
    while i < n
        invariant
            n == data@.len(),
            i <= n,
            out@ + base64_spec(data@.skip(i as int)) == base64_spec(data@),
        decreases n - i,
    {
        let len = if n - i >= 3 {
            3
        } else {
            n - i
        };
        let mut g: Vec<u8> = Vec::new();
        g.push(data[i]);
        if len > 1 {
            g.push(data[i + 1]);
        }
        if len > 2 {
            g.push(data[i + 2]);
        }
        let ghost rest = data@.skip(i as int);
        assert(g@ =~= rest.take(len as int));
        let ghost before = out@;
        let mut cs = group_chars(g.as_slice());
        out.append(&mut cs);
        proof {
            if rest.len() <= 3 {
                assert(g@ =~= rest);
                assert(data@.skip(i + len) =~= Seq::<u8>::empty());
            } else {
                assert(rest.skip(3) =~= data@.skip(i + 3));
            }
            assert(out@ =~= before + b64_group(g@));
        }
        i = i + len;
    }
    assert(data@.skip(n as int) =~= Seq::<u8>::empty());
    crate::text::chars_to_string(out.as_slice())
}

/// A GitHub repository name: not empty, not starting with `.`, made of
/// ASCII letters, digits, `.`, `_` and `-`.
pub open spec fn valid_repo_name_spec(name: Seq<char>) -> bool {
    &&& name.len() > 0
    &&& name[0] != '.'
    &&& forall|i: int| 0 <= i < name.len() ==> {
        let c = #[trigger] name[i];
        is_ascii_alnum(c) || c == '.' || c == '_' || c == '-'
    }
}

/// Whether `name` may name a new GitHub repository.
pub fn is_valid_github_repo_name(name: &str) -> (r: bool)
    ensures
        r == valid_repo_name_spec(name@),
{
    let v = str_chars(name);
    if v.len() == 0 || v[0] == '.' {
        return false;
    }
    let mut i: usize = 0;
    while i < v.len()
        invariant
            i <= v@.len(),
            v@ == name@,
            forall|j: int| 0 <= j < i ==> {
                let c = #[trigger] v@[j];
                is_ascii_alnum(c) || c == '.' || c == '_' || c == '-'
            },
        decreases v@.len() - i,
    {
        let c = v[i];
        if !(is_ascii_alnum_char(c) || c == '.' || c == '_' || c == '-') {
            return false;
        }
        i = i + 1;
    }
    true
}

/// Order of the repository list.
#[derive(Clone, Copy, Debug, PartialEq, Eq, Structural)]
pub enum SortOrder {
    Alphabetical,
    DirtyFirst,
}

impl SortOrder {
    /// The other order.
    pub fn next(self) -> (r: Self)
        ensures
            r == (match self {
                SortOrder::Alphabetical => SortOrder::DirtyFirst,
                SortOrder::DirtyFirst => SortOrder::Alphabetical,
            }),
    {
        match self {
            SortOrder::Alphabetical => SortOrder::DirtyFirst,
            SortOrder::DirtyFirst => SortOrder::Alphabetical,
        }
    }
}

/// A title underlined with 40 box-drawing dashes.
pub open spec fn section_header_spec(title: Seq<char>) -> Seq<char> {
    title + seq!['\n'] + Seq::new(40, |i: int| '\u{2500}') + seq!['\n']
}

pub fn section_header(title: &str) -> (r: String)
    ensures
        r@ == section_header_spec(title@),
{
    let mut s = owned(title);
    push_char(&mut s, '\n');
    let mut k: usize = 0;
    let ghost base = s@;
    while k < 40
        invariant
            k <= 40,
            s@ == base + Seq::new(k as nat, |i: int| '\u{2500}'),
        decreases 40 - k,
    {
        push_char(&mut s, '\u{2500}');
        k = k + 1;
        assert(s@ =~= base + Seq::new(k as nat, |i: int| '\u{2500}'));
    }
    push_char(&mut s, '\n');
    assert(s@ =~= section_header_spec(title@));
    s
}

/// The first seven bytes of a commit id when they end on a character
/// boundary, else the whole id.
pub fn short_oid(oid: &str) -> (r: &str)
    ensures
        is_char_boundary(oid.spec_bytes(), 7) ==> r.spec_bytes() == oid.spec_bytes().subrange(0, 7),
        !is_char_boundary(oid.spec_bytes(), 7) ==> r == oid,
{
    if oid.is_char_boundary(7) {
        oid.split_at(7).0
    } else {
        oid
    }
}

/// Words for a submodule's state.
pub fn submodule_state_label(state: SubmoduleState) -> (r: &'static str)
    ensures
        r@ == (match state {
            SubmoduleState::Dirty => "uncommitted changes"@,
            SubmoduleState::Uninitialized => "not initialized"@,
            SubmoduleState::Modified => "modified"@,
        }),
{
    match state {
        SubmoduleState::Dirty => "uncommitted changes",
        SubmoduleState::Uninitialized => "not initialized",
        SubmoduleState::Modified => "modified",
    }
}

/// Marker in front of a submodule in the file list.
pub open spec fn submodule_marker(state: Option<SubmoduleState>) -> Seq<char> {
    match state {
        Some(SubmoduleState::Modified) => "[sub: +commit] "@,
        Some(SubmoduleState::Uninitialized) => "[sub: -uninit] "@,
        Some(SubmoduleState::Dirty) => "[sub: ~dirty] "@,
        None => "[submodule] "@,
    }
}

/// The marker of a submodule in the file list.
pub fn submodule_label(state: Option<SubmoduleState>) -> (r: &'static str)
    ensures
        r@ == submodule_marker(state),
{
    match state {
        Some(SubmoduleState::Modified) => "[sub: +commit] ",
        Some(SubmoduleState::Uninitialized) => "[sub: -uninit] ",
        Some(SubmoduleState::Dirty) => "[sub: ~dirty] ",
        None => "[submodule] ",
    }
}

/// Short status of a submodule, or a note that nothing changed.
pub fn submodule_status_body(status: String) -> (r: String)
    ensures
        r@ == (if status@.len() == 0 { "(no changes detected)"@ } else { status@ }),
{
    if status.as_str().unicode_len() == 0 {
        owned("(no changes detected)")
    } else {
        status
    }
}

/// Diff of a submodule's work tree: the diff when there is one, else its
/// short status, or the failure.
pub fn submodule_diff_text(diff: Result<String, String>, status: String) -> (r: String)
    ensures
        match diff {
            Ok(t) => r@ == (if t@.len() > 0 {
                t@
            } else if status@.len() == 0 {
                "(no changes detected)"@
            } else {
                status@
            }),
            Err(e) => r@ == "Failed to get submodule diff: "@ + e@,
        },
{
    match diff {
        Ok(text) => {
            if text.as_str().unicode_len() > 0 {
                text
            } else {
                submodule_status_body(status)
            }
        },
        Err(e) => {
            let mut s = owned("Failed to get submodule diff: ");
            push_str(&mut s, e.as_str());
            s
        },
    }
}

/// Log of a submodule's commits in a range, a note when empty, or the failure.
pub fn submodule_log_text(log: Result<String, String>) -> (r: String)
    ensures
        match log {
            Ok(t) => r@ == (if t@.len() == 0 { "(no commits in range)"@ } else { t@ }),
            Err(e) => r@ == "Failed to get submodule log: "@ + e@,
        },
{
    match log {
        Ok(text) => {
            if text.as_str().unicode_len() == 0 {
                owned("(no commits in range)")
            } else {
                text
            }
        },
        Err(e) => {
            let mut s = owned("Failed to get submodule log: ");
            push_str(&mut s, e.as_str());
            s
        },
    }
}

/// Diff of a file: against HEAD, else as a new file, else a note; or the
/// failure.
pub fn file_diff_text(diff: Result<String, String>, new_file_diff: String) -> (r: String)
    ensures
        match diff {
            Ok(t) => r@ == (if t@.len() > 0 {
                t@
            } else if new_file_diff@.len() > 0 {
                new_file_diff@
            } else {
                "(no diff available)"@
            }),
            Err(e) => r@ == "Failed to get diff: "@ + e@,
        },
{
    match diff {
        Ok(text) => {
            let t = if text.as_str().unicode_len() == 0 {
                new_file_diff
            } else {
                text
            };
            if t.as_str().unicode_len() == 0 {
                owned("(no diff available)")
            } else {
                t
            }
        },
        Err(e) => {
            let mut s = owned("Failed to get diff: ");
            push_str(&mut s, e.as_str());
            s
        },
    }
}

/// Lower-cased phrases that mean authentication or permission trouble.
pub open spec fn auth_phrase(k: int) -> Seq<char> {
    if k == 0 {
        "authentication failed"@
    } else if k == 1 {
        "could not read username"@
    } else if k == 2 {
        "could not read password"@
    } else if k == 3 {
        "terminal prompts disabled"@
    } else if k == 4 {
        "no anonymous write access"@
    } else if k == 5 {
        "write access to repository not granted"@
    } else if k == 6 {
        "repository not found"@
    } else if k == 7 {
        "permission denied"@
    } else if k == 8 {
        "authentication required"@
    } else {
        "403"@
    }
}

/// A failed git command's message with advice: about credentials for
/// authentication or permission failures, about the network for connection
/// failures; other messages unchanged.
pub open spec fn explain_spec(m: Seq<char>) -> Seq<char> {
    let lower = lowercase(m);
    if exists|k: int| 0 <= k < 10 && contains_seq(lower, #[trigger] auth_phrase(k)) {
        m + ". Authentication or repository write permission is required. Run `gh auth login` and `gh auth setup-git`, switch the remote to SSH, or ask for write access to this repository."@
    } else if contains_seq(lower, "could not resolve host"@) || contains_seq(lower, "failed to connect"@) {
        m + ". Network access failed; check your connection or remote URL."@
    } else {
        m
    }
}

fn phrase(k: usize) -> (r: &'static str)
    requires
        k < 10,
    ensures
        r@ == auth_phrase(k as int),
{
    if k == 0 {
        "authentication failed"
    } else if k == 1 {
        "could not read username"
    } else if k == 2 {
        "could not read password"
    } else if k == 3 {
        "terminal prompts disabled"
    } else if k == 4 {
        "no anonymous write access"
    } else if k == 5 {
        "write access to repository not granted"
    } else if k == 6 {
        "repository not found"
    } else if k == 7 {
        "permission denied"
    } else if k == 8 {
        "authentication required"
    } else {
        "403"
    }
}

fn contains_str(hay: &Vec<char>, needle: &str) -> (r: bool)
    ensures
        r == contains_seq(hay@, needle@),
{
    let n = str_chars(needle);
    contains_chars(hay.as_slice(), n.as_slice())
}

/// Adds advice to the message of a failed git command.
pub fn explain_git_failure(message: &str) -> (r: String)
    ensures
        r@ == explain_spec(message@),
{
    let lower_s = to_lowercase(message);
    let lower = str_chars(lower_s.as_str());
    let mut k: usize = 0;
    while k < 10
        invariant
            k <= 10,
            lower@ == lowercase(message@),
            forall|j: int| 0 <= j < k ==> !contains_seq(lower@, #[trigger] auth_phrase(j)),
        decreases 10 - k,
    {
        if contains_str(&lower, phrase(k)) {
            let mut s = owned(message);
            push_str(
                &mut s,
                ". Authentication or repository write permission is required. Run `gh auth login` and `gh auth setup-git`, switch the remote to SSH, or ask for write access to this repository.",
            );
            return s;
        }
        k = k + 1;
    }
    if contains_str(&lower, "could not resolve host") || contains_str(&lower, "failed to connect") {
        let mut s = owned(message);
        push_str(&mut s, ". Network access failed; check your connection or remote URL.");
        return s;
    }
    owned(message)
}

/// Whether a repository is excluded: its folder name equals a pattern, or
/// its path contains one.
pub open spec fn excluded_spec(path: Seq<char>, excluded: Seq<String>) -> bool {
    let name = match file_name_spec(path) {
        Some(n) => n,
        None => Seq::empty(),
    };
    exists|i: int| 0 <= i < excluded.len() && (name == (#[trigger] excluded[i])@ || contains_seq(path, excluded[i]@))
}

pub fn is_excluded_repo(repo_path: &str, excluded_repos: &Vec<String>) -> (r: bool)
    ensures
        r == excluded_spec(repo_path@, excluded_repos@),
{
    let name = match file_name(repo_path) {
        Some(n) => n,
        None => String::new(),
    };
    let p = str_chars(repo_path);
    let mut i: usize = 0;
    while i < excluded_repos.len()
        invariant
            i <= excluded_repos@.len(),
            name@ == (match file_name_spec(repo_path@) {
                Some(n) => n,
                None => Seq::<char>::empty(),
            }),
            p@ == repo_path@,
            forall|j: int|
                0 <= j < i ==> !(name@ == (#[trigger] excluded_repos@[j])@ || contains_seq(
                    repo_path@,
                    excluded_repos@[j]@,
                )),
        decreases excluded_repos@.len() - i,
    {
        let pat = &excluded_repos[i];
        if str_eq(name.as_str(), pat.as_str()) || contains_str(&p, pat.as_str()) {
            return true;
        }
        i = i + 1;
    }
    false
}

/// Whether some component of a path is in `excluded`.
pub open spec fn has_excluded_component(path: Seq<char>, excluded: Seq<String>) -> bool {
    let cs = path_components(path, path.len() as int);
    exists|i: int, j: int|
        0 <= i < cs.len() && 0 <= j < excluded.len() && #[trigger] cs[i] == (#[trigger] excluded[j])@
}

/// Whether a path passes through a `.git` directory.
pub open spec fn is_git_path_spec(path: Seq<char>) -> bool {
    let cs = path_components(path, path.len() as int);
    exists|i: int| 0 <= i < cs.len() && #[trigger] cs[i] == ".git"@
}

/// Whether a file event inside `.git` means the repository changed: HEAD,
/// the index, merge or rebase heads, the commit message, packed refs, or
/// anything under `.git/refs/`.
pub open spec fn meaningful_git_event_spec(path: Seq<char>) -> bool {
    let name = match file_name_spec(path) {
        Some(n) => n,
        None => Seq::empty(),
    };
    name == "HEAD"@ || name == "index"@ || name == "MERGE_HEAD"@ || name == "REBASE_HEAD"@ || name
        == "COMMIT_EDITMSG"@ || name == "packed-refs"@ || contains_seq(path, ".git/refs/"@)
}

pub fn is_meaningful_git_event(path: &str) -> (r: bool)
    ensures
        r == meaningful_git_event_spec(path@),
{
    let name = match file_name(path) {
        Some(n) => n,
        None => String::new(),
    };
    let n = name.as_str();
    if str_eq(n, "HEAD") || str_eq(n, "index") || str_eq(n, "MERGE_HEAD") || str_eq(n, "REBASE_HEAD") || str_eq(
        n,
        "COMMIT_EDITMSG",
    ) || str_eq(n, "packed-refs") {
        return true;
    }
    let p = str_chars(path);
    contains_str(&p, ".git/refs/")
}

/// Whether a path starts at the root.
pub open spec fn is_absolute(p: Seq<char>) -> bool {
    p.len() > 0 && p[0] == '/'
}

/// Whether `path` is the directory `root` or lies inside it: both are
/// absolute or both relative, and the components of `root` begin those of
/// `path`.
pub open spec fn path_under(path: Seq<char>, root: Seq<char>) -> bool {
    let pc = path_components(path, path.len() as int);
    let rc = path_components(root, root.len() as int);
    &&& is_absolute(path) == is_absolute(root)
    &&& rc.len() <= pc.len()
    &&& pc.take(rc.len() as int) == rc
}

/// Whether `path` is `root` or inside it.
pub fn is_path_under(path: &str, root: &str) -> (r: bool)
    ensures
        r == path_under(path@, root@),
{
    let pv = str_chars(path);
    let rv = str_chars(root);
    let pa = pv.len() > 0 && pv[0] == '/';
    let ra = rv.len() > 0 && rv[0] == '/';
    if pa != ra {
        return false;
    }
    let pc = crate::paths::components(path);
    let rc = crate::paths::components(root);
    let ghost pcv = path_components(path@, path@.len() as int);
    let ghost rcv = path_components(root@, root@.len() as int);
    if rc.len() > pc.len() {
        return false;
    }
    let mut i: usize = 0;
    while i < rc.len()
        invariant
            i <= rc@.len() <= pc@.len(),
            crate::paths::char_vecs_view(pc@) == pcv,
            crate::paths::char_vecs_view(rc@) == rcv,
            pcv == path_components(path@, path@.len() as int),
            rcv == path_components(root@, root@.len() as int),
            is_absolute(path@) == is_absolute(root@),
            forall|j: int| 0 <= j < i ==> pcv[j] == rcv[j],
        decreases rc@.len() - i,
    {
        assert(pcv[i as int] == pc@[i as int]@ && rcv[i as int] == rc@[i as int]@);
        if !chars_eq(pc[i].as_slice(), rc[i].as_slice()) {
            assert(pcv.take(rcv.len() as int)[i as int] != rcv[i as int]);
            return false;
        }
        i = i + 1;
    }
    assert(pcv.take(rcv.len() as int) =~= rcv);
    true
}

/// Whether a changed file is worth a status refresh: it passes through no
/// excluded directory, and inside `.git` only a meaningful event counts.
pub open spec fn relevant_change(path: Seq<char>, exclude: Seq<String>) -> bool {
    !has_excluded_component(path, exclude) && (is_git_path_spec(path) ==> meaningful_git_event_spec(path))
}

/// Index of the first of `repos` from `i` on that holds `path`, or
/// `repos.len()`.
pub open spec fn owning_repo(path: Seq<char>, repos: Seq<String>, i: int) -> int
    decreases repos.len() - i,
{
    if i < 0 || i >= repos.len() {
        repos.len() as int
    } else if path_under(path, repos[i]@) {
        i
    } else {
        owning_repo(path, repos, i + 1)
    }
}

/// The repositories to refresh for the first `k` changed paths: for each
/// relevant change, the first repository holding it; each repository once,
/// in the order first touched.
pub open spec fn touched_repos(changed: Seq<String>, repos: Seq<String>, exclude: Seq<String>, k: int) -> Seq<
    Seq<char>,
>
    decreases k,
{
    if k <= 0 {
        Seq::empty()
    } else {
        let prev = touched_repos(changed, repos, exclude, k - 1);
        let c = changed[k - 1]@;
        let o = owning_repo(c, repos, 0);
        if relevant_change(c, exclude) && 0 <= o < repos.len() && !prev.contains(repos[o]@) {
            prev.push(repos[o]@)
        } else {
            prev
        }
    }
}

fn first_owner(path: &str, repos: &Vec<String>) -> (r: usize)
    ensures
        r == owning_repo(path@, repos@, 0),
{
    let mut i: usize = 0;
    while i < repos.len()
        invariant
            i <= repos@.len(),
            owning_repo(path@, repos@, 0) == owning_repo(path@, repos@, i as int),
        decreases repos@.len() - i,
    {
        if is_path_under(path, repos[i].as_str()) {
            return i;
        }
        i = i + 1;
    }
    i
}

/// The repositories to refresh after the files `changed` changed.
pub fn changed_repos(changed: &Vec<String>, repos: &Vec<String>, exclude: &Vec<String>) -> (r: Vec<String>)
    ensures
        string_views(r@) == touched_repos(changed@, repos@, exclude@, changed@.len() as int),
{
    let mut out: Vec<String> = Vec::new();
    let mut k: usize = 0;
    while k < changed.len()
        invariant
            k <= changed@.len(),
            string_views(out@) == touched_repos(changed@, repos@, exclude@, k as int),
        decreases changed@.len() - k,
    {
        let c = changed[k].as_str();
        let relevant = !contains_excluded_component(c, exclude) && (!is_git_path(c) || is_meaningful_git_event(c));
        let o = first_owner(c, repos);
        if relevant && o < repos.len() && !crate::text::contains_string(&out, repos[o].as_str()) {
            let ghost before = string_views(out@);
            out.push(repos[o].clone());
            assert(string_views(out@) =~= before.push(repos@[o as int]@));
        }
        k = k + 1;
    }
    out
}

/// Whether some component of `path` is one of `exclude_set`.
pub fn contains_excluded_component(path: &str, exclude_set: &Vec<String>) -> (r: bool)
    ensures
        r == has_excluded_component(path@, exclude_set@),
{
    let cs = crate::paths::components(path);
    let ghost csv = path_components(path@, path@.len() as int);
    let mut i: usize = 0;
    while i < cs.len()
        invariant
            i <= cs@.len(),
            crate::paths::char_vecs_view(cs@) == csv,
            csv == path_components(path@, path@.len() as int),
            forall|a: int, j: int|
                0 <= a < i && 0 <= j < exclude_set@.len() ==> #[trigger] csv[a] != (#[trigger] exclude_set@[j])@,
        decreases cs@.len() - i,
    {
        let s = crate::text::chars_to_string(cs[i].as_slice());
        let mut j: usize = 0;
        while j < exclude_set.len()
            invariant
                i < cs@.len(),
                crate::paths::char_vecs_view(cs@) == csv,
                csv == path_components(path@, path@.len() as int),
                s@ == csv[i as int],
                j <= exclude_set@.len(),
                forall|k: int| 0 <= k < j ==> csv[i as int] != (#[trigger] exclude_set@[k])@,
            decreases exclude_set@.len() - j,
        {
            if str_eq(s.as_str(), exclude_set[j].as_str()) {
                assert(csv.len() == cs@.len());
                assert(csv[i as int] == exclude_set@[j as int]@);
                assert(exists|a: int, b: int|
                    0 <= a < csv.len() && 0 <= b < exclude_set@.len() && #[trigger] csv[a] == (#[trigger] exclude_set@[b])@);
                assert(has_excluded_component(path@, exclude_set@));
                return true;
            }
            j = j + 1;
        }
        i = i + 1;
    }
    false
}

/// Whether a path passes through a `.git` directory.
pub fn is_git_path(path: &str) -> (r: bool)
    ensures
        r == is_git_path_spec(path@),
{
    let cs = crate::paths::components(path);
    let ghost csv = path_components(path@, path@.len() as int);
    let mut i: usize = 0;
    while i < cs.len()
        invariant
            i <= cs@.len(),
            crate::paths::char_vecs_view(cs@) == csv,
            csv == path_components(path@, path@.len() as int),
            forall|a: int| 0 <= a < i ==> #[trigger] csv[a] != ".git"@,
        decreases cs@.len() - i,
    {
        let s = crate::text::chars_to_string(cs[i].as_slice());
        if str_eq(s.as_str(), ".git") {
            assert(csv.len() == cs@.len());
            assert(csv[i as int] == ".git"@);
            assert(exists|a: int| 0 <= a < csv.len() && #[trigger] csv[a] == ".git"@);
            assert(is_git_path_spec(path@));
            return true;
        }
        i = i + 1;
    }
    false
}

/// A text with ASCII letters lower-cased.
pub open spec fn ascii_lowercase(s: Seq<char>) -> Seq<char> {
    s.map_values(|c: char| crate::text::ascii_lower(c))
}

fn ascii_lowercase_exec(s: &[char]) -> (r: Vec<char>)
    ensures
        r@ == ascii_lowercase(s@),
{
    let mut r: Vec<char> = Vec::new();
    let mut i: usize = 0;
    while i < s.len()
        invariant
            i <= s@.len(),
            r@ == ascii_lowercase(s@).take(i as int),
        decreases s@.len() - i,
    {
        r.push(crate::text::ascii_lower_char(s[i]));
        i = i + 1;
        assert(r@ =~= ascii_lowercase(s@).take(i as int));
    }
    assert(ascii_lowercase(s@).take(i as int) =~= ascii_lowercase(s@));
    r
}

/// Sort key of a repository: its folder name with ASCII letters lower-cased.
pub open spec fn repo_sort_key(path: Seq<char>) -> Seq<char> {
    ascii_lowercase(
        match file_name_spec(path) {
            Some(n) => n,
            None => Seq::empty(),
        },
    )
}

/// Sort keys of repositories.
pub open spec fn repo_keys(repos: Seq<String>) -> Seq<Seq<char>> {
    string_views(repos).map_values(|x: Seq<char>| repo_sort_key(x))
}

/// Repositories sorted by folder name (ASCII case ignored, ties in the
/// given order), with the pinned ones (given canonically) first, in
/// that same order.
pub open spec fn pinned_first_spec(repos: Seq<String>, pinned: Seq<String>, r: Seq<String>) -> bool {
    exists|p: Seq<usize>| {
        let sorted = p.map_values(|i: usize| repos[i as int]@);
        &&& #[trigger] crate::sort::stable_order_spec(repo_keys(repos), p)
        &&& string_views(r) == sorted.filter(|x: Seq<char>| string_views(pinned).contains(x)) + sorted.filter(
            |x: Seq<char>| !string_views(pinned).contains(x),
        )
    }
}

/// Sorts discovered repositories by folder name and moves the pinned ones
/// (their canonical paths in `pinned_canonical`) to the front.
pub fn sort_repos_with_pinned_first(repos: &mut Vec<String>, pinned_canonical: &Vec<String>)
    ensures
        pinned_first_spec(old(repos)@, pinned_canonical@, final(repos)@),
{
    let mut keys: Vec<Vec<char>> = Vec::new();
    let mut i: usize = 0;
    let ghost ks = repo_keys(repos@);
    while i < repos.len()
        invariant
            i <= repos@.len(),
            repos@ == old(repos)@,
            ks == repo_keys(repos@),
            keys@.len() == i,
            forall|j: int| 0 <= j < i ==> (#[trigger] keys@[j])@ == ks[j],
        decreases repos@.len() - i,
    {
        let name = match file_name(repos[i].as_str()) {
            Some(n) => n,
            None => String::new(),
        };
        let nv = str_chars(name.as_str());
        keys.push(ascii_lowercase_exec(nv.as_slice()));
        i = i + 1;
    }
    assert(keys@.map_values(|k: Vec<char>| k@) =~= ks);
    let p = crate::sort::stable_order(&keys);
    let ghost sorted = p@.map_values(|i: usize| old(repos)@[i as int]@);
    let ghost pin = |x: Seq<char>| string_views(pinned_canonical@).contains(x);
    let ghost unpin = |x: Seq<char>| !string_views(pinned_canonical@).contains(x);
    let mut first: Vec<String> = Vec::new();
    let mut rest: Vec<String> = Vec::new();
    let mut k: usize = 0;
    while k < p.len()
        invariant
            k <= p@.len(),
            repos@ == old(repos)@,
            p@.len() == repos@.len(),
            forall|j: int| 0 <= j < p@.len() ==> (#[trigger] p@[j]) < repos@.len(),
            sorted == p@.map_values(|i: usize| old(repos)@[i as int]@),
            pin == (|x: Seq<char>| string_views(pinned_canonical@).contains(x)),
            unpin == (|x: Seq<char>| !string_views(pinned_canonical@).contains(x)),
            string_views(first@) == sorted.take(k as int).filter(pin),
            string_views(rest@) == sorted.take(k as int).filter(unpin),
        decreases p@.len() - k,
    {
        let item = repos[p[k]].clone();
        let is_pinned = crate::text::contains_string(pinned_canonical, item.as_str());
        proof {
            let a = sorted.take(k as int);
            assert(sorted.take(k + 1) =~= a.push(sorted[k as int]));
            a.lemma_filter_push(sorted[k as int], pin);
            a.lemma_filter_push(sorted[k as int], unpin);
        }
        if is_pinned {
            first.push(item);
            assert(string_views(first@) =~= sorted.take(k as int).filter(pin).push(sorted[k as int]));
            assert(string_views(rest@) =~= sorted.take(k + 1).filter(unpin));
        } else {
            rest.push(item);
            assert(string_views(rest@) =~= sorted.take(k as int).filter(unpin).push(sorted[k as int]));
            assert(string_views(first@) =~= sorted.take(k + 1).filter(pin));
        }
        k = k + 1;
    }
    assert(sorted.take(k as int) =~= sorted);
    let ghost f = first@;
    let ghost r = rest@;
    first.append(&mut rest);
    assert(string_views(first@) =~= string_views(f) + string_views(r));
    assert(crate::sort::stable_order_spec(ks, p@));
    *repos = first;
}

/// Whether a repository scan enters the directory entry `name` found at
/// `depth`: the root, files and `.git` always; other directories unless
/// their name is excluded from watching or names an excluded repository.
pub fn should_descend(
    depth: usize,
    is_dir: bool,
    name: &str,
    watch_exclude_dirs: &Vec<String>,
    excluded_repos: &Vec<String>,
) -> (r: bool)
    ensures
        r == (depth == 0 || !is_dir || name@ == ".git"@ || (!string_views(watch_exclude_dirs@).contains(name@)
            && !string_views(excluded_repos@).contains(name@))),
{
    if depth == 0 || !is_dir {
        return true;
    }
    if str_eq(name, ".git") {
        return true;
    }
    !crate::text::contains_string(watch_exclude_dirs, name) && !crate::text::contains_string(excluded_repos, name)
}

/// Directory names kept under `.git` when watching: those whose changes
/// matter (references and logs).
pub open spec fn kept_git_dir(name: Seq<char>) -> bool {
    name == ".git"@ || name == "refs"@ || name == "logs"@ || name == "heads"@ || name == "remotes"@ || name == "tags"@
}

/// Whether the watcher watches the directory entry `name` at `path` found
/// at `depth`: never an excluded directory, and inside `.git` only the
/// directories of references and logs.
pub fn keep_dir(depth: usize, is_dir: bool, path: &str, name: &str, exclude_set: &Vec<String>) -> (r: bool)
    ensures
        r == (if depth == 0 || !is_dir {
            true
        } else if string_views(exclude_set@).contains(name@) {
            false
        } else if is_git_path_spec(path@) {
            kept_git_dir(name@)
        } else {
            true
        }),
{
    if depth == 0 || !is_dir {
        return true;
    }
    if crate::text::contains_string(exclude_set, name) {
        return false;
    }
    if is_git_path(path) {
        return str_eq(name, ".git") || str_eq(name, "refs") || str_eq(name, "logs") || str_eq(name, "heads") || str_eq(
            name,
            "remotes",
        ) || str_eq(name, "tags");
    }
    true
}

} // verus!
