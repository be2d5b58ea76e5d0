//! Recognising GitHub remotes and turning them into browser URLs.
use vstd::prelude::*;
use crate::text::{
    ascii_lower, chars_to_string, eq_ignore_ascii_case, eq_ignore_ascii_case_exec,
    first_index_of, first_index_of_exec, is_ascii_alnum, is_ascii_alnum_char, last_index_of,
    last_index_of_exec, lemma_first_index_of, lemma_last_index_of, push_chars, starts_with,
    starts_with_chars, str_chars, sub_chars, trim_chars, trim_end_char, trim_end_char_exec,
    trim_end_seq, trim_end_seq_exec, trim_spec, trim_start_seq, trim_start_seq_exec,
};

verus! {

// ---------------------------------------------------------------------------
// Specification
// ---------------------------------------------------------------------------

/// Last path segment of a web URL (trailing slashes ignored), if not empty.
pub open spec fn repo_name_from_web_url(url: Seq<char>) -> Option<Seq<char>> {
    let t = trim_end_char(url, '/');
    let k = last_index_of(t, '/', t.len() as int);
    let name = t.subrange(k + 1, t.len() as int);
    if name.len() > 0 { Some(name) } else { None }
}

/// The part of `s` before the first `c`, and the part after it.
pub open spec fn split_once(s: Seq<char>, c: char) -> Option<(Seq<char>, Seq<char>)> {
    let i = first_index_of(s, c, 0);
    if i >= 0 { Some((s.take(i), s.skip(i + 1))) } else { None }
}

/// The URL schemes a remote may start with, tried in this order.
pub open spec fn remote_scheme(k: int) -> Seq<char> {
    if k == 0 {
        seq!['g', 'i', 't', '+', 's', 's', 'h', ':', '/', '/']
    } else if k == 1 {
        seq!['s', 's', 'h', ':', '/', '/']
    } else if k == 2 {
        seq!['h', 't', 't', 'p', 's', ':', '/', '/']
    } else {
        seq!['h', 't', 't', 'p', ':', '/', '/']
    }
}

/// Host and path of a remote that uses URL scheme `k`.
pub open spec fn split_scheme_remote(url: Seq<char>, k: int) -> Option<(Seq<char>, Seq<char>)> {
    let rest = url.skip(remote_scheme(k).len() as int);
    let at = last_index_of(rest, '@', rest.len() as int);
    let rest2 = if at >= 0 { rest.skip(at + 1) } else { rest };
    match split_once(rest2, '/') {
        Some((authority, path)) => {
            let host = match split_once(authority, ':') {
                Some((h, _)) => h,
                None => authority,
            };
            Some((host, path))
        },
        None => None,
    }
}

/// First URL scheme, from `k` on, that `url` starts with (4 when none).
pub open spec fn matching_scheme(url: Seq<char>, k: int) -> int
    decreases 4 - k,
{
    if k >= 4 {
        4
    } else if starts_with(url, remote_scheme(k)) {
        k
    } else {
        matching_scheme(url, k + 1)
    }
}

/// Splits a remote into host and path: URL forms (`scheme://user@host:port/path`),
/// `git@host:path`, and `host:path`.
pub open spec fn split_git_remote_spec(url: Seq<char>) -> Option<(Seq<char>, Seq<char>)> {
    let k = matching_scheme(url, 0);
    if k < 4 {
        split_scheme_remote(url, k)
    } else if starts_with(url, seq!['g', 'i', 't', '@']) {
        split_once(url.skip(4), ':')
    } else {
        split_once(url, ':')
    }
}

/// A host name with whitespace, leading `https://`/`http://`, trailing
/// slashes and any port removed.
pub open spec fn normalize_host_spec(host: Seq<char>) -> Seq<char> {
    let n = trim_end_char(
        trim_start_seq(
            trim_start_seq(trim_spec(host), seq!['h', 't', 't', 'p', 's', ':', '/', '/']),
            seq!['h', 't', 't', 'p', ':', '/', '/'],
        ),
        '/',
    );
    match split_once(n, ':') {
        Some((h, _)) => h,
        None => n,
    }
}

/// Whether two host names denote the same host.
pub open spec fn same_host_spec(allowed: Seq<char>, actual: Seq<char>) -> bool {
    eq_ignore_ascii_case(normalize_host_spec(allowed), normalize_host_spec(actual))
}

/// Characters allowed in a GitHub owner or repository name.
pub open spec fn is_safe_url_char(c: char) -> bool {
    is_ascii_alnum(c) || c == '.' || c == '_' || c == '-'
}

/// A non-empty owner or repository name made of safe characters.
pub open spec fn is_safe_url_segment_spec(part: Seq<char>) -> bool {
    part.len() > 0 && forall|i: int| 0 <= i < part.len() ==> is_safe_url_char(#[trigger] part[i])
}

/// Index of the first `?` or `#` in `s` at or after `i`, or `s.len()`.
pub open spec fn query_start(s: Seq<char>, i: int) -> int
    decreases s.len() - i,
{
    if i < 0 || i >= s.len() {
        s.len() as int
    } else if s[i] == '?' || s[i] == '#' {
        i
    } else {
        query_start(s, i + 1)
    }
}

/// Owner and repository named by the path of a remote.
pub open spec fn owner_and_repo(path: Seq<char>) -> Option<(Seq<char>, Seq<char>)> {
    let p = trim_end_seq(
        trim_end_char(path.take(query_start(path, 0)), '/'),
        seq!['.', 'g', 'i', 't'],
    );
    match split_once(p, '/') {
        Some((owner, rest)) => {
            let repo = match split_once(rest, '/') {
                Some((r, _)) => r,
                None => rest,
            };
            if is_safe_url_segment_spec(owner) && is_safe_url_segment_spec(repo) {
                Some((owner, repo))
            } else {
                None
            }
        },
        None => None,
    }
}

/// Whether one of `hosts` is the same host as `host`.
pub open spec fn host_allowed(hosts: Seq<String>, host: Seq<char>) -> bool {
    exists|i: int| 0 <= i < hosts.len() && same_host_spec(#[trigger] hosts[i]@, host)
}

/// `https://{host}/{owner}/{repo}`.
pub open spec fn web_url(host: Seq<char>, owner: Seq<char>, repo: Seq<char>) -> Seq<char> {
    seq!['h', 't', 't', 'p', 's', ':', '/', '/'] + host + seq!['/'] + owner + seq!['/'] + repo
}

/// Browser URL of a remote on one of `hosts`.
pub open spec fn github_web_url_spec(url: Seq<char>, hosts: Seq<String>) -> Option<Seq<char>> {
    match split_git_remote_spec(trim_spec(url)) {
        Some((host, path)) => if host_allowed(hosts, host) {
            match owner_and_repo(path) {
                Some((owner, repo)) => Some(web_url(host, owner, repo)),
                None => None,
            }
        } else {
            None
        },
        None => None,
    }
}

// ---------------------------------------------------------------------------
// Executable functions
// ---------------------------------------------------------------------------

/// Executable [`split_once`].
fn split_once_exec(s: &[char], c: char) -> (r: Option<(Vec<char>, Vec<char>)>)
    ensures
        match r {
            Some((a, b)) => split_once(s@, c) == Some((a@, b@)),
            None => split_once(s@, c) is None,
        },
{
    match first_index_of_exec(s, c, 0) {
        Some(i) => {
            proof {
                lemma_first_index_of(s@, c, 0);
            }
            assert(i < s.len());
            let a = sub_chars(s, 0, i);
            let b = sub_chars(s, i + 1, s.len());
            assert(a@ =~= s@.take(i as int));
            assert(b@ =~= s@.skip(i + 1));
            Some((a, b))
        },
        None => None,
    }
}

/// Repository name at the end of a GitHub web URL.
pub fn github_repo_name_from_web_url(url: &str) -> (r: Option<String>)
    ensures
        match r {
            Some(name) => repo_name_from_web_url(url@) == Some(name@),
            None => repo_name_from_web_url(url@) is None,
        },
{
    let u = str_chars(url);
    let t = trim_end_char_exec(u.as_slice(), '/');
    proof {
        lemma_last_index_of(t@, '/', t@.len() as int);
    }
    let start = match last_index_of_exec(t.as_slice(), '/', t.len()) {
        Some(k) => k + 1,
        None => 0,
    };
    let name = sub_chars(t.as_slice(), start, t.len());
    if name.len() > 0 {
        Some(chars_to_string(name.as_slice()))
    } else {
        None
    }
}

/// The characters of URL scheme `k`.
fn scheme_chars(k: usize) -> (v: Vec<char>)
    requires
        k < 4,
    ensures
        v@ == remote_scheme(k as int),
{
    if k == 0 {
        vec!['g', 'i', 't', '+', 's', 's', 'h', ':', '/', '/']
    } else if k == 1 {
        vec!['s', 's', 'h', ':', '/', '/']
    } else if k == 2 {
        vec!['h', 't', 't', 'p', 's', ':', '/', '/']
    } else {
        vec!['h', 't', 't', 'p', ':', '/', '/']
    }
}

/// Host and path of a remote URL, `git@host:path` or `host:path`.
pub fn split_git_remote(url: &[char]) -> (r: Option<(Vec<char>, Vec<char>)>)
    ensures
        match r {
            Some((h, p)) => split_git_remote_spec(url@) == Some((h@, p@)),
            None => split_git_remote_spec(url@) is None,
        },
{
    let mut k: usize = 0;
    while k < 4
        invariant
            k <= 4,
            matching_scheme(url@, 0) == matching_scheme(url@, k as int),
        decreases 4 - k,
    {
        let scheme = scheme_chars(k);
        if starts_with_chars(url, scheme.as_slice()) {
            assert(matching_scheme(url@, 0) == k);
            let rest = sub_chars(url, scheme.len(), url.len());
            assert(rest@ =~= url@.skip(remote_scheme(k as int).len() as int));
            let rest2 = match last_index_of_exec(rest.as_slice(), '@', rest.len()) {
                Some(at) => {
                    proof {
                        lemma_last_index_of(rest@, '@', rest@.len() as int);
                    }
                    let v = sub_chars(rest.as_slice(), at + 1, rest.len());
                    assert(v@ =~= rest@.skip(at + 1));
                    v
                },
                None => rest,
            };
            return match split_once_exec(rest2.as_slice(), '/') {
                Some((authority, path)) => {
                    let host = match split_once_exec(authority.as_slice(), ':') {
                        Some((h, _)) => h,
                        None => authority,
                    };
                    Some((host, path))
                },
                None => None,
            };
        }
        k = k + 1;
    }
    let git_at = vec!['g', 'i', 't', '@'];
    if starts_with_chars(url, git_at.as_slice()) {
        let rest = sub_chars(url, 4, url.len());
        assert(rest@ =~= url@.skip(4));
        return split_once_exec(rest.as_slice(), ':');
    }
    split_once_exec(url, ':')
}

/// Host name with whitespace, scheme, trailing slashes and port removed.
pub fn normalize_host(host: &[char]) -> (r: Vec<char>)
    ensures
        r@ == normalize_host_spec(host@),
{
    let t = trim_chars(host);
    let https = vec!['h', 't', 't', 'p', 's', ':', '/', '/'];
    let http = vec!['h', 't', 't', 'p', ':', '/', '/'];
    let a = trim_start_seq_exec(t.as_slice(), https.as_slice());
    let b = trim_start_seq_exec(a.as_slice(), http.as_slice());
    let n = trim_end_char_exec(b.as_slice(), '/');
    match split_once_exec(n.as_slice(), ':') {
        Some((h, _)) => h,
        None => n,
    }
}

/// Whether two host names denote the same host (ASCII case ignored).
pub fn same_host(allowed: &[char], actual: &[char]) -> (r: bool)
    ensures
        r == same_host_spec(allowed@, actual@),
{
    let a = normalize_host(allowed);
    let b = normalize_host(actual);
    eq_ignore_ascii_case_exec(a.as_slice(), b.as_slice())
}

/// Whether `part` is a non-empty name of letters, digits, `.`, `_` and `-`.
pub fn is_safe_url_segment(part: &[char]) -> (r: bool)
    ensures
        r == is_safe_url_segment_spec(part@),
{
    if part.len() == 0 {
        return false;
    }
    let mut i: usize = 0;
    while i < part.len()
        invariant
            i <= part@.len(),
            forall|j: int| 0 <= j < i ==> is_safe_url_char(#[trigger] part@[j]),
        decreases part@.len() - i,
    {
        let c = part[i];
        if !(is_ascii_alnum_char(c) || c == '.' || c == '_' || c == '-') {
            return false;
        }
        i = i + 1;
    }
    true
}

/// Executable [`query_start`] from 0.
fn query_start_exec(s: &[char]) -> (r: usize)
    ensures
        r == query_start(s@, 0),
        r <= s@.len(),
{
    let mut i: usize = 0;
    while i < s.len()
        invariant
            i <= s@.len(),
            query_start(s@, 0) == query_start(s@, i as int),
        decreases s@.len() - i,
    {
        if s[i] == '?' || s[i] == '#' {
            return i;
        }
        i = i + 1;
    }
    i
}

/// Owner and repository named by the path of a remote.
fn owner_and_repo_exec(path: &[char]) -> (r: Option<(Vec<char>, Vec<char>)>)
    ensures
        match r {
            Some((o, p)) => owner_and_repo(path@) == Some((o@, p@)),
            None => owner_and_repo(path@) is None,
        },
{
    let q = query_start_exec(path);
    let before = sub_chars(path, 0, q);
    assert(before@ =~= path@.take(q as int));
    let t = trim_end_char_exec(before.as_slice(), '/');
    let dot_git = vec!['.', 'g', 'i', 't'];
    let p = trim_end_seq_exec(t.as_slice(), dot_git.as_slice());
    match split_once_exec(p.as_slice(), '/') {
        Some((owner, rest)) => {
            let repo = match split_once_exec(rest.as_slice(), '/') {
                Some((r, _)) => r,
                None => rest,
            };
            if is_safe_url_segment(owner.as_slice()) && is_safe_url_segment(repo.as_slice()) {
                Some((owner, repo))
            } else {
                None
            }
        },
        None => None,
    }
}

/// Whether one of `hosts` is the same host as `host`.
fn host_allowed_exec(hosts: &Vec<String>, host: &[char]) -> (r: bool)
    ensures
        r == host_allowed(hosts@, host@),
{
    let mut i: usize = 0;
    while i < hosts.len()
        invariant
            i <= hosts@.len(),
            forall|j: int| 0 <= j < i ==> !same_host_spec(#[trigger] hosts@[j]@, host@),
        decreases hosts@.len() - i,
    {
        let h = str_chars(hosts[i].as_str());
        if same_host(h.as_slice(), host) {
            assert(same_host_spec(hosts@[i as int]@, host@));
            return true;
        }
        i = i + 1;
    }
    false
}

/// Browser URL (`https://host/owner/repo`) of a remote whose host is one of
/// `hosts`; `None` for other hosts and for owner or repository names with
/// characters outside letters, digits, `.`, `_` and `-`.
pub fn github_web_url_from_remote(url: &str, hosts: &Vec<String>) -> (r: Option<String>)
    ensures
        match r {
            Some(s) => github_web_url_spec(url@, hosts@) == Some(s@),
            None => github_web_url_spec(url@, hosts@) is None,
        },
{
    let u = str_chars(url);
    let trimmed = trim_chars(u.as_slice());
    match split_git_remote(trimmed.as_slice()) {
        Some((host, path)) => {
            if !host_allowed_exec(hosts, host.as_slice()) {
                return None;
            }
            match owner_and_repo_exec(path.as_slice()) {
                Some((owner, repo)) => {
                    let mut out = String::new();
                    let prefix = vec!['h', 't', 't', 'p', 's', ':', '/', '/'];
                    let slash = vec!['/'];
                    push_chars(&mut out, prefix.as_slice());
                    push_chars(&mut out, host.as_slice());
                    push_chars(&mut out, slash.as_slice());
                    push_chars(&mut out, owner.as_slice());
                    push_chars(&mut out, slash.as_slice());
                    push_chars(&mut out, repo.as_slice());
                    assert(out@ =~= web_url(host@, owner@, repo@));
                    Some(out)
                },
                None => None,
            }
        },
        None => None,
    }
}

/// Push and fetch URLs of one configured remote, as read from a repository.
#[derive(Debug)]
pub struct RemoteUrls {
    pub push_url: Option<String>,
    pub url: Option<String>,
}

/// The browser URL a single remote contributes: from its push URL when it
/// has one, else from its fetch URL.
pub open spec fn remote_web_url(r: RemoteUrls, hosts: Seq<String>) -> Option<Seq<char>> {
    match r.push_url {
        Some(p) => github_web_url_spec(p@, hosts),
        None => match r.url {
            Some(u) => github_web_url_spec(u@, hosts),
            None => None,
        },
    }
}

/// First browser URL among the remotes `i..`.
pub open spec fn first_remote_web_url(remotes: Seq<RemoteUrls>, hosts: Seq<String>, i: int) -> Option<Seq<char>>
    decreases remotes.len() - i,
{
    if i < 0 || i >= remotes.len() {
        None
    } else {
        match remote_web_url(remotes[i], hosts) {
            Some(u) => Some(u),
            None => first_remote_web_url(remotes, hosts, i + 1),
        }
    }
}

/// Browser URL of the first remote, in configuration order, that points at
/// one of `hosts`.
pub fn github_url_from_remotes(remotes: &Vec<RemoteUrls>, hosts: &Vec<String>) -> (r: Option<String>)
    ensures
        match r {
            Some(s) => first_remote_web_url(remotes@, hosts@, 0) == Some(s@),
            None => first_remote_web_url(remotes@, hosts@, 0) is None,
        },
{
    let mut i: usize = 0;
    while i < remotes.len()
        invariant
            i <= remotes@.len(),
            first_remote_web_url(remotes@, hosts@, 0) == first_remote_web_url(remotes@, hosts@, i as int),
        decreases remotes@.len() - i,
    {
        let found = match &remotes[i].push_url {
            Some(p) => github_web_url_from_remote(p.as_str(), hosts),
            None => match &remotes[i].url {
                Some(u) => github_web_url_from_remote(u.as_str(), hosts),
                None => None,
            },
        };
        if found.is_some() {
            return found;
        }
        i = i + 1;
    }
    None
}

} // verus!
