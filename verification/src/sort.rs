//! Stable ordering of items by text keys, compared character by character
//! as the standard library compares strings.
use vstd::prelude::*;
use crate::text::{str_chars, string_views};

verus! {

/// `a` comes before `b`: at the first difference `a` has the smaller
/// character, or `a` is a proper prefix of `b`.
pub open spec fn lex_lt(a: Seq<char>, b: Seq<char>) -> bool
    decreases a.len(),
{
    if a.len() == 0 {
        b.len() > 0
    } else if b.len() == 0 {
        false
    } else if a[0] != b[0] {
        a[0] < b[0]
    } else {
        lex_lt(a.skip(1), b.skip(1))
    }
}

pub proof fn lemma_lex_irreflexive(a: Seq<char>)
    ensures
        !lex_lt(a, a),
    decreases a.len(),
{
    if a.len() > 0 {
        lemma_lex_irreflexive(a.skip(1));
    }
}

pub proof fn lemma_lex_total(a: Seq<char>, b: Seq<char>)
    ensures
        a == b || lex_lt(a, b) || lex_lt(b, a),
    decreases a.len(),
{
    if a.len() > 0 && b.len() > 0 && a[0] == b[0] {
        lemma_lex_total(a.skip(1), b.skip(1));
        if a.skip(1) == b.skip(1) {
            assert(a =~= seq![a[0]] + a.skip(1));
            assert(b =~= seq![b[0]] + b.skip(1));
        }
    } else if a.len() == 0 && b.len() == 0 {
        assert(a =~= b);
    } else if a.len() > 0 && b.len() > 0 {
    }
}

pub proof fn lemma_lex_asym(a: Seq<char>, b: Seq<char>)
    ensures
        !(lex_lt(a, b) && lex_lt(b, a)),
    decreases a.len(),
{
    if a.len() > 0 && b.len() > 0 && a[0] == b[0] {
        lemma_lex_asym(a.skip(1), b.skip(1));
    }
}

pub proof fn lemma_lex_trans(a: Seq<char>, b: Seq<char>, c: Seq<char>)
    requires
        lex_lt(a, b),
        lex_lt(b, c),
    ensures
        lex_lt(a, c),
    decreases a.len(),
{
    if a.len() > 0 && b.len() > 0 && c.len() > 0 {
        if a[0] == b[0] && b[0] == c[0] {
            lemma_lex_trans(a.skip(1), b.skip(1), c.skip(1));
        }
    }
}

/// Whether `a` comes before `b`.
pub fn lex_less(a: &[char], b: &[char]) -> (r: bool)
    ensures
        r == lex_lt(a@, b@),
{
    let mut i: usize = 0;
    assert(a@.skip(0) =~= a@ && b@.skip(0) =~= b@);
    while i < a.len() && i < b.len() && a[i] == b[i]
        invariant
            i <= a@.len(),
            i <= b@.len(),
            lex_lt(a@, b@) == lex_lt(a@.skip(i as int), b@.skip(i as int)),
        decreases a@.len() - i,
    {
        assert(a@.skip(i as int).skip(1) =~= a@.skip(i + 1));
        assert(b@.skip(i as int).skip(1) =~= b@.skip(i + 1));
        i = i + 1;
    }
    if i == a.len() {
        i < b.len()
    } else if i == b.len() {
        false
    } else {
        a[i] < b[i]
    }
}

/// Item `x` goes before item `y`: a smaller key, or the same key and an
/// earlier position.
pub open spec fn goes_before(keys: Seq<Seq<char>>, x: int, y: int) -> bool {
    lex_lt(keys[x], keys[y]) || (keys[x] == keys[y] && x < y)
}

/// `p` lists every position `0..keys.len()` once, in stable key order.
pub open spec fn stable_order_spec(keys: Seq<Seq<char>>, p: Seq<usize>) -> bool {
    &&& p.len() == keys.len()
    &&& forall|i: int| 0 <= i < p.len() ==> (#[trigger] p[i]) < keys.len()
    &&& forall|i: int, j: int| 0 <= i < j < p.len() ==> #[trigger] p[i] != #[trigger] p[j]
    &&& forall|i: int, j: int| 0 <= i < j < p.len() ==> goes_before(keys, #[trigger] p[i] as int, #[trigger] p[j] as int)
}

/// Positions `0..keys.len()` in stable key order (insertion sort).
pub fn stable_order(keys: &Vec<Vec<char>>) -> (p: Vec<usize>)
    ensures
        stable_order_spec(keys@.map_values(|k: Vec<char>| k@), p@),
{
    let ghost ks = keys@.map_values(|k: Vec<char>| k@);
    let mut p: Vec<usize> = Vec::new();
    let mut k: usize = 0;
    while k < keys.len()
        invariant
            ks == keys@.map_values(|k: Vec<char>| k@),
            k <= keys@.len(),
            p@.len() == k,
            forall|i: int| 0 <= i < p@.len() ==> (#[trigger] p@[i]) < k,
            forall|i: int, j: int| 0 <= i < j < p@.len() ==> #[trigger] p@[i] != #[trigger] p@[j],
            forall|i: int, j: int| 0 <= i < j < p@.len() ==> goes_before(ks, #[trigger] p@[i] as int, #[trigger] p@[j] as int),
        decreases keys@.len() - k,
    {
        // first position whose key is greater than key k
        let mut pos: usize = 0;
        while pos < p.len() && !lex_less(keys[k].as_slice(), keys[p[pos]].as_slice())
            invariant
                ks == keys@.map_values(|k: Vec<char>| k@),
                k < keys@.len(),
                pos <= p@.len(),
                p@.len() == k,
                forall|i: int| 0 <= i < p@.len() ==> (#[trigger] p@[i]) < k,
                forall|i: int| 0 <= i < pos ==> !lex_lt(ks[k as int], ks[#[trigger] p@[i] as int]),
            decreases p@.len() - pos,
        {
            pos = pos + 1;
        }
        let ghost old_p = p@;
        p.insert(pos, k);
        proof {
            assert forall|i: int| 0 <= i < pos implies goes_before(ks, #[trigger] old_p[i] as int, k as int) by {
                lemma_lex_total(ks[k as int], ks[old_p[i] as int]);
            }
            if pos < old_p.len() {
                assert forall|q: int| pos <= q < old_p.len() implies lex_lt(ks[k as int], ks[#[trigger] old_p[q] as int]) by {
                    if q > pos {
                        assert(goes_before(ks, old_p[pos as int] as int, old_p[q] as int));
                        if lex_lt(ks[old_p[pos as int] as int], ks[old_p[q] as int]) {
                            lemma_lex_trans(ks[k as int], ks[old_p[pos as int] as int], ks[old_p[q] as int]);
                        }
                    }
                }
            }
            assert forall|i: int, j: int| 0 <= i < j < p@.len() implies goes_before(ks, #[trigger] p@[i] as int, #[trigger] p@[j] as int) by {
                if i < pos && j < pos {
                    assert(p@[i] == old_p[i] && p@[j] == old_p[j]);
                } else if i < pos && j == pos {
                    assert(p@[i] == old_p[i]);
                } else if i < pos && j > pos {
                    assert(p@[i] == old_p[i] && p@[j] == old_p[j - 1]);
                } else if i == pos {
                    assert(p@[j] == old_p[j - 1]);
                } else {
                    assert(p@[i] == old_p[i - 1] && p@[j] == old_p[j - 1]);
                }
            }
            assert forall|i: int, j: int| 0 <= i < j < p@.len() implies #[trigger] p@[i] != #[trigger] p@[j] by {
                if i < pos && j < pos {
                    assert(p@[i] == old_p[i] && p@[j] == old_p[j]);
                } else if i < pos && j > pos {
                    assert(p@[i] == old_p[i] && p@[j] == old_p[j - 1]);
                } else if i > pos {
                    assert(p@[i] == old_p[i - 1] && p@[j] == old_p[j - 1]);
                } else if i < pos && j == pos {
                    assert(p@[i] == old_p[i]);
                } else {
                    assert(p@[j] == old_p[j - 1]);
                }
            }
            assert forall|i: int| 0 <= i < p@.len() implies (#[trigger] p@[i]) < k + 1 by {
                if i < pos {
                    assert(p@[i] == old_p[i]);
                } else if i > pos {
                    assert(p@[i] == old_p[i - 1]);
                }
            }
        }
        k = k + 1;
    }
    p
}

/// Strings in ascending order (equal strings in their given order).
pub fn sort_strings(v: Vec<String>) -> (r: Vec<String>)
    ensures
        exists|p: Seq<usize>|
            stable_order_spec(string_views(v@), p) && r@.len() == p.len() && forall|i: int|
                0 <= i < p.len() ==> #[trigger] r@[i] == v@[p[i] as int],
{
    let mut keys: Vec<Vec<char>> = Vec::new();
    let mut i: usize = 0;
    while i < v.len()
        invariant
            i <= v@.len(),
            keys@.len() == i,
            forall|j: int| 0 <= j < i ==> (#[trigger] keys@[j])@ == v@[j]@,
        decreases v@.len() - i,
    {
        keys.push(str_chars(v[i].as_str()));
        i = i + 1;
    }
    assert(keys@.map_values(|k: Vec<char>| k@) =~= string_views(v@));
    let p = stable_order(&keys);
    permute(&v, &p)
}

/// `v` rearranged as `p` lists its positions.
pub fn permute(v: &Vec<String>, p: &Vec<usize>) -> (r: Vec<String>)
    requires
        forall|i: int| 0 <= i < p@.len() ==> (#[trigger] p@[i]) < v@.len(),
    ensures
        r@.len() == p@.len(),
        forall|i: int| 0 <= i < p@.len() ==> #[trigger] r@[i] == v@[p@[i] as int],
{
    let mut r: Vec<String> = Vec::new();
    let mut i: usize = 0;
    while i < p.len()
        invariant
            i <= p@.len(),
            forall|k: int| 0 <= k < p@.len() ==> (#[trigger] p@[k]) < v@.len(),
            r@.len() == i,
            forall|k: int| 0 <= k < i ==> #[trigger] r@[k] == v@[p@[k] as int],
        decreases p@.len() - i,
    {
        r.push(v[p[i]].clone());
        i = i + 1;
    }
    r
}

/// Sort key of a relative path: the separator sorts before every other
/// character, so comparing keys compares the paths component by component.
pub open spec fn path_key(s: Seq<char>) -> Seq<char> {
    s.map_values(|c: char| if c == '/' { '\u{0}' } else { c })
}

/// The sort keys of a sequence of paths.
pub open spec fn path_keys(v: Seq<String>) -> Seq<Seq<char>> {
    v.map_values(|s: String| path_key(s@))
}

/// Paths in ascending path order (equal paths in their given order).
pub fn sort_paths(v: Vec<String>) -> (r: Vec<String>)
    ensures
        exists|p: Seq<usize>|
            stable_order_spec(path_keys(v@), p) && r@.len() == p.len() && forall|i: int|
                0 <= i < p.len() ==> #[trigger] r@[i] == v@[p[i] as int],
{
    let mut keys: Vec<Vec<char>> = Vec::new();
    let mut i: usize = 0;
    while i < v.len()
        invariant
            i <= v@.len(),
            keys@.len() == i,
            forall|j: int| 0 <= j < i ==> (#[trigger] keys@[j])@ == path_key(v@[j]@),
        decreases v@.len() - i,
    {
        let cs = str_chars(v[i].as_str());
        let mut key: Vec<char> = Vec::new();
        let mut k: usize = 0;
        while k < cs.len()
            invariant
                k <= cs@.len(),
                key@ == path_key(cs@.take(k as int)),
            decreases cs@.len() - k,
        {
            let c = cs[k];
            if c == '/' {
                key.push('\u{0}');
            } else {
                key.push(c);
            }
            assert(path_key(cs@.take(k + 1)) =~= path_key(cs@.take(k as int)).push(if c == '/' { '\u{0}' } else { c }));
            k = k + 1;
        }
        assert(cs@.take(cs@.len() as int) =~= cs@);
        keys.push(key);
        i = i + 1;
    }
    assert(keys@.map_values(|k: Vec<char>| k@) =~= path_keys(v@));
    let p = stable_order(&keys);
    permute(&v, &p)
}

} // verus!
