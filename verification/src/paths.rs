//! Unix path strings: components, final names, joining and `~` expansion.
//!
//! Paths are held as text. A component is a non-empty piece between `/`
//! separators other than `.`; this is how the standard library reads a
//! path's components on Unix.
use vstd::prelude::*;
use crate::text::{
    chars_eq, chars_to_string, last_index_of, last_index_of_exec, lemma_last_index_of,
    push_chars, str_chars, sub_chars,
};

verus! {

/// A piece between separators that counts as a component.
pub open spec fn is_component(seg: Seq<char>) -> bool {
    seg.len() > 0 && seg != seq!['.']
}

/// The components of the first `n` characters of `p`.
pub open spec fn path_components(p: Seq<char>, n: int) -> Seq<Seq<char>>
    decreases n,
{
    if n <= 0 || n > p.len() {
        Seq::empty()
    } else {
        let k = last_index_of(p, '/', n);
        proof {
            lemma_last_index_of(p, '/', n);
        }
        let seg = p.subrange(k + 1, n);
        let rest = if k < 0 { Seq::<Seq<char>>::empty() } else { path_components(p, k) };
        if is_component(seg) { rest.push(seg) } else { rest }
    }
}

/// The `..` component.
pub open spec fn is_parent_dir(seg: Seq<char>) -> bool {
    seg == seq!['.', '.']
}

/// Final component of a path, unless the path ends in `..` or has none.
pub open spec fn file_name_spec(p: Seq<char>) -> Option<Seq<char>> {
    let cs = path_components(p, p.len() as int);
    if cs.len() > 0 && !is_parent_dir(cs.last()) { Some(cs.last()) } else { None }
}

/// Final component of the parent directory of a path.
pub open spec fn parent_name_spec(p: Seq<char>) -> Option<Seq<char>> {
    let cs = path_components(p, p.len() as int);
    if cs.len() >= 2 && !is_parent_dir(cs[cs.len() - 2]) { Some(cs[cs.len() - 2]) } else { None }
}

/// Range `a..b` of the last component of `p[..n]`, if there is one.
fn last_component(p: &[char], n: usize) -> (r: Option<(usize, usize)>)
    requires
        n <= p@.len(),
    ensures
        match r {
            Some((a, b)) => {
                &&& a < b <= n
                &&& (a == 0 || p@[a - 1] == '/')
                &&& path_components(p@, n as int) == (if a == 0 {
                    Seq::<Seq<char>>::empty()
                } else {
                    path_components(p@, a - 1)
                }).push(p@.subrange(a as int, b as int))
            },
            None => path_components(p@, n as int).len() == 0,
        },
{
    let mut i = n;
    while i > 0
        invariant
            i <= n <= p@.len(),
            path_components(p@, n as int) == path_components(p@, i as int),
        decreases i,
    {
        proof {
            lemma_last_index_of(p@, '/', i as int);
        }
        let a = match last_index_of_exec(p, '/', i) {
            Some(k) => k + 1,
            None => 0,
        };
        let seg_len = i - a;
        let is_dot = seg_len == 1 && p[a] == '.';
        if seg_len > 0 && !is_dot {
            proof {
                assert(is_component(p@.subrange(a as int, i as int))) by {
                    if p@.subrange(a as int, i as int) == seq!['.'] {
                        assert(p@.subrange(a as int, i as int)[0] == p@[a as int]);
                    }
                }
            }
            return Some((a, i));
        }
        proof {
            assert(!is_component(p@.subrange(a as int, i as int))) by {
                if seg_len == 1 {
                    assert(p@.subrange(a as int, i as int) =~= seq!['.']);
                }
            }
        }
        if a == 0 {
            i = 0;
        } else {
            i = a - 1;
        }
    }
    None
}

fn is_dot_dot(seg: &[char]) -> (r: bool)
    ensures
        r == is_parent_dir(seg@),
{
    let dd = vec!['.', '.'];
    chars_eq(seg, dd.as_slice())
}

/// Final component of `path`, if it has one and it is not `..`.
pub fn file_name(path: &str) -> (r: Option<String>)
    ensures
        match r {
            Some(s) => file_name_spec(path@) == Some(s@),
            None => file_name_spec(path@) is None,
        },
{
    let p = str_chars(path);
    match last_component(p.as_slice(), p.len()) {
        Some((a, b)) => {
            let seg = sub_chars(p.as_slice(), a, b);
            if is_dot_dot(seg.as_slice()) {
                None
            } else {
                Some(chars_to_string(seg.as_slice()))
            }
        },
        None => None,
    }
}

/// Final component of the directory that contains `path`.
pub fn parent_name(path: &str) -> (r: Option<String>)
    ensures
        match r {
            Some(s) => parent_name_spec(path@) == Some(s@),
            None => parent_name_spec(path@) is None,
        },
{
    let p = str_chars(path);
    match last_component(p.as_slice(), p.len()) {
        Some((a, _)) => {
            if a == 0 {
                return None;
            }
            match last_component(p.as_slice(), a - 1) {
                Some((c, d)) => {
                    let seg = sub_chars(p.as_slice(), c, d);
                    let ghost cs = path_components(p@, p@.len() as int);
                    assert(cs[cs.len() - 2] == seg@);
                    if is_dot_dot(seg.as_slice()) {
                        None
                    } else {
                        Some(chars_to_string(seg.as_slice()))
                    }
                },
                None => None,
            }
        },
        None => None,
    }
}

/// `rest` appended to `base` as the standard library joins paths: an
/// absolute `rest` replaces `base`; otherwise a separator is put between
/// them when `base` is not empty and does not already end in one.
pub open spec fn join_spec(base: Seq<char>, rest: Seq<char>) -> Seq<char> {
    if rest.len() > 0 && rest[0] == '/' {
        rest
    } else if base.len() > 0 && base.last() != '/' {
        base + seq!['/'] + rest
    } else {
        base + rest
    }
}

/// Joins two paths.
pub fn join_path(base: &str, rest: &str) -> (r: String)
    ensures
        r@ == join_spec(base@, rest@),
{
    let b = str_chars(base);
    let t = str_chars(rest);
    if t.len() > 0 && t[0] == '/' {
        return chars_to_string(t.as_slice());
    }
    let mut out = chars_to_string(b.as_slice());
    if b.len() > 0 && b[b.len() - 1] != '/' {
        let sep = vec!['/'];
        push_chars(&mut out, sep.as_slice());
    }
    push_chars(&mut out, t.as_slice());
    out
}

/// `~` followed by `rest`, as a text-level home reference: the rest with
/// one leading `/` dropped, joined onto `home`; other input unchanged.
pub open spec fn expand_tilde_spec(input: Seq<char>, home: Option<Seq<char>>) -> Seq<char> {
    if input.len() > 0 && input[0] == '~' && home is Some {
        let rest = input.skip(1);
        let rest2 = if rest.len() > 0 && rest[0] == '/' { rest.skip(1) } else { rest };
        join_spec(home->0, rest2)
    } else {
        input
    }
}

/// Expands a leading `~` of typed input against the home directory `home`.
pub fn expand_tilde_with(input: &str, home: Option<&str>) -> (r: String)
    ensures
        r@ == expand_tilde_spec(input@, match home { Some(h) => Some(h@), None => None }),
{
    let v = str_chars(input);
    match home {
        Some(h) => {
            if v.len() > 0 && v[0] == '~' {
                let start: usize = if v.len() > 1 && v[1] == '/' { 2 } else { 1 };
                let rest = sub_chars(v.as_slice(), start, v.len());
                assert(rest@ =~= (if v@.skip(1).len() > 0 && v@.skip(1)[0] == '/' {
                    v@.skip(1).skip(1)
                } else {
                    v@.skip(1)
                }));
                let rest_s = chars_to_string(rest.as_slice());
                join_path(h, rest_s.as_str())
            } else {
                chars_to_string(v.as_slice())
            }
        },
        None => chars_to_string(v.as_slice()),
    }
}

/// Path text after a leading `~` component, as the standard library hands
/// back the rest of a path: leading separators and `.` components dropped,
/// and trailing ones too.
pub open spec fn strip_left_spec(s: Seq<char>) -> Seq<char>
    decreases s.len(),
{
    if s.len() > 0 && (s[0] == '/' || (s[0] == '.' && (s.len() == 1 || s[1] == '/'))) {
        strip_left_spec(s.skip(1))
    } else {
        s
    }
}

/// Trailing separators and `.` components dropped.
pub open spec fn strip_right_spec(s: Seq<char>) -> Seq<char>
    decreases s.len(),
{
    if s.len() > 0 && (s.last() == '/' || (s.last() == '.' && (s.len() == 1 || s[s.len() - 2] == '/'))) {
        strip_right_spec(s.drop_last())
    } else {
        s
    }
}

/// Whether a path's first component is `~`.
pub open spec fn starts_with_tilde_component(p: Seq<char>) -> bool {
    p.len() > 0 && p[0] == '~' && (p.len() == 1 || p[1] == '/')
}

/// A configured directory with a leading `~` component resolved against `home`.
pub open spec fn expand_config_dir_spec(dir: Seq<char>, home: Seq<char>) -> Seq<char> {
    if starts_with_tilde_component(dir) {
        join_spec(home, strip_right_spec(strip_left_spec(dir.skip(1))))
    } else {
        dir
    }
}

fn strip_left(s: &[char]) -> (r: Vec<char>)
    ensures
        r@ == strip_left_spec(s@),
{
    let mut i: usize = 0;
    assert(s@.skip(0) =~= s@);
    while i < s.len() && (s[i] == '/' || (s[i] == '.' && (i + 1 == s.len() || s[i + 1] == '/')))
        invariant
            i <= s@.len(),
            strip_left_spec(s@.skip(i as int)) == strip_left_spec(s@),
        decreases s@.len() - i,
    {
        assert(s@.skip(i as int).skip(1) =~= s@.skip(i + 1));
        i = i + 1;
    }
    let r = sub_chars(s, i, s.len());
    assert(r@ =~= s@.skip(i as int));
    r
}

fn strip_right(s: &[char]) -> (r: Vec<char>)
    ensures
        r@ == strip_right_spec(s@),
{
    let mut n = s.len();
    assert(s@.take(n as int) =~= s@);
    while n > 0 && (s[n - 1] == '/' || (s[n - 1] == '.' && (n == 1 || s[n - 2] == '/')))
        invariant
            n <= s@.len(),
            strip_right_spec(s@.take(n as int)) == strip_right_spec(s@),
        decreases n,
    {
        assert(s@.take(n as int).drop_last() =~= s@.take(n - 1));
        n = n - 1;
    }
    sub_chars(s, 0, n)
}

/// Resolves a leading `~` component of a configured directory against `home`.
pub fn expand_config_dir(dir: &str, home: &str) -> (r: String)
    ensures
        r@ == expand_config_dir_spec(dir@, home@),
{
    let v = str_chars(dir);
    if v.len() > 0 && v[0] == '~' && (v.len() == 1 || v[1] == '/') {
        let after = sub_chars(v.as_slice(), 1, v.len());
        assert(after@ =~= v@.skip(1));
        let l = strip_left(after.as_slice());
        let r = strip_right(l.as_slice());
        let rest = chars_to_string(r.as_slice());
        join_path(home, rest.as_str())
    } else {
        chars_to_string(v.as_slice())
    }
}

/// Character views of a list of character vectors.
pub open spec fn char_vecs_view(v: Seq<Vec<char>>) -> Seq<Seq<char>> {
    v.map_values(|x: Vec<char>| x@)
}

/// The components of `p[..n]`, in order.
pub fn components_upto(p: &[char], n: usize) -> (r: Vec<Vec<char>>)
    requires
        n <= p@.len(),
    ensures
        char_vecs_view(r@) == path_components(p@, n as int),
    decreases n,
{
    match last_component(p, n) {
        Some((a, b)) => {
            let mut rest = if a == 0 {
                Vec::new()
            } else {
                components_upto(p, a - 1)
            };
            let ghost before = rest@;
            let seg = sub_chars(p, a, b);
            rest.push(seg);
            assert(char_vecs_view(rest@) =~= char_vecs_view(before).push(p@.subrange(a as int, b as int)));
            proof {
                if a == 0 {
                    assert(char_vecs_view(before) =~= Seq::<Seq<char>>::empty());
                }
            }
            rest
        },
        None => {
            let r: Vec<Vec<char>> = Vec::new();
            assert(char_vecs_view(r@) =~= path_components(p@, n as int));
            r
        },
    }
}

/// The components of a path.
pub fn components(path: &str) -> (r: Vec<Vec<char>>)
    ensures
        char_vecs_view(r@) == path_components(path@, path@.len() as int),
{
    let p = str_chars(path);
    components_upto(p.as_slice(), p.len())
}

} // verus!
