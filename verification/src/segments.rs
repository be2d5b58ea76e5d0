//! Branch segments: groups of graph rows off the main line of history.
//!
//! The main trunk is the first-parent chain from the newest row. Every
//! other row belongs to exactly one segment: the rows joined to it through
//! first-parent links that stay off the trunk. Segments can be collapsed
//! in the graph view.
use vstd::prelude::*;
use vstd::set_lib::{lemma_int_range, lemma_len_subset, set_int_range};
use crate::graph::{BranchLabel, GraphRow};
use crate::oid::Oid;

verus! {

// ---------------------------------------------------------------------------
// Model: first-parent links and the trunk
// ---------------------------------------------------------------------------

/// Last index below `n` of a row for the commit `id`, or -1.
pub open spec fn last_index_below(rows: Seq<GraphRow>, id: Seq<char>, n: int) -> int
    decreases n,
{
    if n <= 0 {
        -1
    } else if rows[n - 1].oid@ == id {
        n - 1
    } else {
        last_index_below(rows, id, n - 1)
    }
}

/// Row of the first parent of row `i` (the last row with that id), or -1
/// when it has no parent or the parent is not among the rows.
pub open spec fn fp_idx(rows: Seq<GraphRow>, i: int) -> int {
    if 0 <= i < rows.len() && rows[i].parent_oids@.len() > 0 {
        last_index_below(rows, rows[i].parent_oids@[0]@, rows.len() as int)
    } else {
        -1
    }
}

/// The trunk walk: the row reached after `k` first-parent steps from row 0
/// (-1 once the walk has left the rows).
pub open spec fn chain(rows: Seq<GraphRow>, k: nat) -> int
    decreases k,
{
    if k == 0 {
        if rows.len() > 0 { 0 } else { -1 }
    } else {
        fp_idx(rows, chain(rows, (k - 1) as nat))
    }
}

/// Whether row `i` is on the main trunk.
pub open spec fn in_trunk(rows: Seq<GraphRow>, i: int) -> bool {
    0 <= i < rows.len() && exists|k: nat| chain(rows, k) == i
}

/// A row off the trunk.
pub open spec fn side_row(rows: Seq<GraphRow>, x: int) -> bool {
    0 <= x < rows.len() && !in_trunk(rows, x)
}

/// Two side rows joined by a first-parent link (either way).
pub open spec fn linked(rows: Seq<GraphRow>, x: int, y: int) -> bool {
    side_row(rows, x) && side_row(rows, y) && (fp_idx(rows, x) == y || fp_idx(rows, y) == x)
}

/// A walk through side rows along first-parent links.
pub open spec fn path_ok(rows: Seq<GraphRow>, p: Seq<int>) -> bool {
    &&& p.len() >= 1
    &&& forall|k: int| 0 <= k < p.len() ==> side_row(rows, #[trigger] p[k])
    &&& forall|k: int| 0 <= k < p.len() - 1 ==> linked(rows, #[trigger] p[k], p[k + 1])
}

/// Whether side rows `x` and `y` are joined by first-parent links that
/// stay off the trunk.
pub open spec fn connected(rows: Seq<GraphRow>, x: int, y: int) -> bool {
    exists|p: Seq<int>| #[trigger] path_ok(rows, p) && p[0] == x && p.last() == y
}

proof fn lemma_last_index_below(rows: Seq<GraphRow>, id: Seq<char>, n: int)
    requires
        0 <= n <= rows.len(),
    ensures
        -1 <= last_index_below(rows, id, n) < n,
        last_index_below(rows, id, n) >= 0 ==> rows[last_index_below(rows, id, n)].oid@ == id,
        forall|j: int| last_index_below(rows, id, n) < j < n ==> (#[trigger] rows[j]).oid@ != id,
    decreases n,
{
    if n > 0 && rows[n - 1].oid@ != id {
        lemma_last_index_below(rows, id, n - 1);
    }
}

proof fn lemma_fp_idx(rows: Seq<GraphRow>, i: int)
    ensures
        -1 <= fp_idx(rows, i) < rows.len(),
{
    if 0 <= i < rows.len() && rows[i].parent_oids@.len() > 0 {
        lemma_last_index_below(rows, rows[i].parent_oids@[0]@, rows.len() as int);
    }
}

proof fn lemma_chain_range(rows: Seq<GraphRow>, k: nat)
    ensures
        -1 <= chain(rows, k) < rows.len(),
    decreases k,
{
    if k > 0 {
        lemma_chain_range(rows, (k - 1) as nat);
        lemma_fp_idx(rows, chain(rows, (k - 1) as nat));
    }
}

proof fn lemma_chain_stays_gone(rows: Seq<GraphRow>, s: nat, k: nat)
    requires
        chain(rows, s) == -1,
        k >= s,
    ensures
        chain(rows, k) == -1,
    decreases k - s,
{
    if k > s {
        lemma_chain_stays_gone(rows, s, (k - 1) as nat);
    }
}

/// Once the walk revisits a row, it only ever revisits rows seen before.
proof fn lemma_chain_cycles(rows: Seq<GraphRow>, t: nat, s: nat, k: nat)
    requires
        t < s,
        chain(rows, t) == chain(rows, s),
    ensures
        exists|k2: nat| k2 < s && chain(rows, k2) == chain(rows, k),
    decreases k,
{
    if k < s {
        assert(chain(rows, k) == chain(rows, k));
    } else {
        lemma_chain_cycles(rows, t, s, (k - 1) as nat);
        let k1 = choose|k2: nat| k2 < s && #[trigger] chain(rows, k2) == chain(rows, (k - 1) as nat);
        assert(chain(rows, k) == fp_idx(rows, chain(rows, (k - 1) as nat)));
        assert(chain(rows, (k1 + 1) as nat) == fp_idx(rows, chain(rows, k1)));
        if k1 + 1 < s {
            assert(chain(rows, (k1 + 1) as nat) == chain(rows, k));
        } else {
            assert(chain(rows, t) == chain(rows, k));
        }
    }
}

// ---------------------------------------------------------------------------
// Lemmas about walks
// ---------------------------------------------------------------------------

pub proof fn lemma_connected_refl(rows: Seq<GraphRow>, x: int)
    requires
        side_row(rows, x),
    ensures
        connected(rows, x, x),
{
    let p = seq![x];
    assert(path_ok(rows, p));
}

pub proof fn lemma_connected_link(rows: Seq<GraphRow>, x: int, y: int)
    requires
        linked(rows, x, y),
    ensures
        connected(rows, x, y),
{
    let p = seq![x, y];
    assert(path_ok(rows, p));
}

proof fn lemma_connected_sym(rows: Seq<GraphRow>, x: int, y: int)
    requires
        connected(rows, x, y),
    ensures
        connected(rows, y, x),
{
    let p = choose|p: Seq<int>| #[trigger] path_ok(rows, p) && p[0] == x && p.last() == y;
    let q = p.reverse();
    assert forall|k: int| 0 <= k < q.len() - 1 implies linked(rows, #[trigger] q[k], q[k + 1]) by {
        let j = p.len() - 2 - k;
        assert(linked(rows, p[j], p[j + 1]));
        assert(q[k] == p[j + 1]);
        assert(q[k + 1] == p[j]);
    }
    assert forall|k: int| 0 <= k < q.len() implies side_row(rows, #[trigger] q[k]) by {
        assert(q[k] == p[p.len() - 1 - k]);
    }
    assert(path_ok(rows, q));
}

proof fn lemma_connected_trans(rows: Seq<GraphRow>, x: int, y: int, z: int)
    requires
        connected(rows, x, y),
        connected(rows, y, z),
    ensures
        connected(rows, x, z),
{
    let p = choose|p: Seq<int>| #[trigger] path_ok(rows, p) && p[0] == x && p.last() == y;
    let q = choose|q: Seq<int>| #[trigger] path_ok(rows, q) && q[0] == y && q.last() == z;
    let r = p + q.drop_first();
    assert forall|k: int| 0 <= k < r.len() implies side_row(rows, #[trigger] r[k]) by {
        if k >= p.len() {
            assert(r[k] == q[k - p.len() + 1]);
        }
    }
    assert forall|k: int| 0 <= k < r.len() - 1 implies linked(rows, #[trigger] r[k], r[k + 1]) by {
        if k < p.len() - 1 {
            assert(linked(rows, p[k], p[k + 1]));
        } else if k == p.len() - 1 {
            assert(r[k] == y);
            assert(r[k + 1] == q[1]);
            assert(linked(rows, q[0], q[1]));
        } else {
            let j = k - p.len() + 1;
            assert(r[k] == q[j]);
            assert(r[k + 1] == q[j + 1]);
            assert(linked(rows, q[j], q[j + 1]));
        }
    }
    assert(path_ok(rows, r));
}

// ---------------------------------------------------------------------------
// Executable pieces
// ---------------------------------------------------------------------------

/// Row index of the first parent of row `i`, as [`fp_idx`].
fn first_parent_index(rows: &Vec<GraphRow>, i: usize) -> (r: Option<usize>)
    requires
        i < rows@.len(),
    ensures
        fp_idx(rows@, i as int) == (match r {
            Some(j) => j as int,
            None => -1,
        }),
{
    if rows[i].parent_oids.len() == 0 {
        return None;
    }
    let id = &rows[i].parent_oids[0];
    let mut n = rows.len();
    while n > 0
        invariant
            n <= rows@.len(),
            fp_idx(rows@, i as int) == last_index_below(rows@, id@, n as int),
            *id == rows@[i as int].parent_oids@[0],
        decreases n,
    {
        if rows[n - 1].oid.same(id) {
            return Some(n - 1);
        }
        n = n - 1;
    }
    None
}

/// Marks the rows of the main trunk.
fn trunk_rows(rows: &Vec<GraphRow>) -> (marked: Vec<bool>)
    ensures
        marked@.len() == rows@.len(),
        forall|i: int| 0 <= i < rows@.len() ==> (#[trigger] marked@[i] <==> in_trunk(rows@, i)),
{
    let n = rows.len();
    let mut marked: Vec<bool> = Vec::new();
    let mut i: usize = 0;
    while i < n
        invariant
            n == rows@.len(),
            i <= n,
            marked@.len() == i,
            forall|j: int| 0 <= j < i ==> !(#[trigger] marked@[j]),
        decreases n - i,
    {
        marked.push(false);
        i = i + 1;
    }
    if n == 0 {
        return marked;
    }
    let mut cur: usize = 0;
    let ghost mut s: nat = 0;
    let ghost mut visited: Set<int> = Set::empty();
    let mut done = false;
    proof {
        lemma_int_range(0, n as int);
    }
    while !done
        invariant
            n == rows@.len(),
            n > 0,
            marked@.len() == n,
            cur < n,
            !done ==> chain(rows@, s) == cur as int,
            done ==> forall|k: nat| #![trigger chain(rows@, k)] exists|k2: nat| k2 < s && chain(rows@, k2) == chain(rows@, k) || chain(rows@, k) == -1,
            visited == Set::new(|v: int| exists|k: nat| k < s && chain(rows@, k) == v),
            forall|j: int| 0 <= j < n ==> (#[trigger] marked@[j] <==> visited.contains(j)),
            visited.subset_of(set_int_range(0, n as int)),
            visited.finite(),
            visited.len() == s,
            s <= n,
        decreases n - s + (if done { 0int } else { 1int }),
    {
        if marked[cur] {
            proof {
                let t = choose|k: nat| k < s && chain(rows@, k) == cur as int;
                assert forall|k: nat| #![trigger chain(rows@, k)] exists|k2: nat| k2 < s && chain(rows@, k2) == chain(rows@, k) || chain(rows@, k) == -1 by {
                    lemma_chain_cycles(rows@, t, s, k);
                }
            }
            done = true;
        } else {
            marked.set(cur, true);
            proof {
                let new_visited = visited.insert(cur as int);
                assert(new_visited =~= Set::new(|v: int| exists|k: nat| k < s + 1 && chain(rows@, k) == v)) by {
                    assert forall|v: int| new_visited.contains(v) implies exists|k: nat| k < s + 1 && chain(rows@, k) == v by {
                        if v == cur as int {
                            assert(chain(rows@, s) == v);
                        } else {
                            let k = choose|k: nat| k < s && chain(rows@, k) == v;
                        }
                    }
                    assert forall|v: int| (exists|k: nat| k < s + 1 && chain(rows@, k) == v) implies new_visited.contains(v) by {
                        let k = choose|k: nat| k < s + 1 && chain(rows@, k) == v;
                        if k < s {
                        } else {
                            assert(v == cur as int);
                        }
                    }
                }
                assert(!visited.contains(cur as int));
                visited = new_visited;
                s = s + 1;
                lemma_int_range(0, n as int);
                lemma_len_subset(visited, set_int_range(0, n as int));
            }
            match first_parent_index(rows, cur) {
                Some(next) => {
                    proof {
                        lemma_fp_idx(rows@, cur as int);
                    }
                    cur = next;
                    assert(chain(rows@, s) == fp_idx(rows@, chain(rows@, (s - 1) as nat)));
                },
                None => {
                    proof {
                        assert(chain(rows@, s) == -1);
                        assert forall|k: nat| #![trigger chain(rows@, k)] exists|k2: nat| k2 < s && chain(rows@, k2) == chain(rows@, k) || chain(rows@, k) == -1 by {
                            if k >= s {
                                lemma_chain_stays_gone(rows@, s, k);
                            } else {
                                assert(chain(rows@, k) == chain(rows@, k));
                            }
                        }
                    }
                    done = true;
                },
            }
        }
    }
    assert forall|i: int| 0 <= i < rows@.len() implies (#[trigger] marked@[i] <==> in_trunk(rows@, i)) by {
        if marked@[i] {
            let k = choose|k: nat| k < s && chain(rows@, k) == i;
            assert(chain(rows@, k) == i);
        }
        if in_trunk(rows@, i) {
            let k = choose|k: nat| chain(rows@, k) == i;
            assert(exists|k2: nat| k2 < s && chain(rows@, k2) == chain(rows@, k) || chain(rows@, k) == -1);
        }
    }
    marked
}

} // verus!

verus! {

// ---------------------------------------------------------------------------
// Union-find over row indices
// ---------------------------------------------------------------------------

/// Parent links point to an element no larger than the element itself.
pub open spec fn uf_wf(p: Seq<usize>) -> bool {
    forall|i: int| 0 <= i < p.len() ==> (#[trigger] p[i] as int) <= i
}

/// Representative of `x`: follow parent links until an element is its own parent.
pub open spec fn uf_root(p: Seq<usize>, x: int) -> int
    decreases x,
{
    if 0 <= x < p.len() && (p[x] as int) < x {
        uf_root(p, p[x] as int)
    } else {
        x
    }
}

/// Disjoint sets over `0..n`. Each set is represented by its smallest
/// element.
#[derive(Debug)]
pub struct UnionFind {
    parent: Vec<usize>,
}

proof fn lemma_root(p: Seq<usize>, x: int)
    requires
        uf_wf(p),
        0 <= x < p.len(),
    ensures
        0 <= uf_root(p, x) <= x,
        p[uf_root(p, x)] as int == uf_root(p, x),
    decreases x,
{
    if (p[x] as int) < x {
        lemma_root(p, p[x] as int);
    }
}

/// Pointing `x` straight at its representative changes no representative.
proof fn lemma_compress(p: Seq<usize>, x: int, y: int)
    requires
        uf_wf(p),
        0 <= x < p.len(),
    ensures
        uf_wf(p.update(x, uf_root(p, x) as usize)),
        uf_root(p.update(x, uf_root(p, x) as usize), y) == uf_root(p, y),
    decreases y,
{
    lemma_root(p, x);
    let r = uf_root(p, x);
    let p2 = p.update(x, r as usize);
    assert(uf_wf(p2));
    if 0 <= y < p.len() {
        if y == x {
            if r < x {
                assert(p2[r] == r);
                lemma_compress(p, x, r);
            }
        } else if (p[y] as int) < y {
            lemma_compress(p, x, p[y] as int);
        }
    }
}

/// Hanging representative `hi` below representative `lo < hi` merges the
/// two sets under `lo`.
proof fn lemma_link(p: Seq<usize>, lo: int, hi: int, y: int)
    requires
        uf_wf(p),
        0 <= lo < hi < p.len(),
        p[lo] as int == lo,
        p[hi] as int == hi,
    ensures
        uf_wf(p.update(hi, lo as usize)),
        uf_root(p.update(hi, lo as usize), y) == (if uf_root(p, y) == hi { lo } else { uf_root(p, y) }),
    decreases y,
{
    let p2 = p.update(hi, lo as usize);
    assert(uf_wf(p2));
    if 0 <= y < p.len() {
        if y == hi {
            assert(uf_root(p2, lo) == lo);
        } else if (p[y] as int) < y {
            lemma_link(p, lo, hi, p[y] as int);
        }
    }
}

impl UnionFind {
    /// Parent links of the structure.
    pub closed spec fn parents(&self) -> Seq<usize> {
        self.parent@
    }

    /// Representative of `x`.
    #[verifier::inline]
    pub open spec fn root_of(&self, x: int) -> int {
        uf_root(self.parents(), x)
    }

    /// Well-formed structure over `n` elements.
    pub open spec fn wf(&self, n: nat) -> bool {
        self.parents().len() == n && uf_wf(self.parents())
    }

    /// `n` singleton sets.
    pub fn new(n: usize) -> (uf: UnionFind)
        ensures
            uf.wf(n as nat),
            forall|y: int| 0 <= y < n ==> #[trigger] uf.root_of(y) == y,
    {
        let mut parent: Vec<usize> = Vec::new();
        let mut i: usize = 0;
        while i < n
            invariant
                i <= n,
                parent@.len() == i,
                forall|j: int| 0 <= j < i ==> #[trigger] parent@[j] == j,
            decreases n - i,
        {
            parent.push(i);
            i = i + 1;
        }
        let uf = UnionFind { parent };
        assert forall|y: int| 0 <= y < n implies #[trigger] uf.root_of(y) == y by {
            assert(uf.parents()[y] == y);
        }
        uf
    }

    /// Representative of `x`; shortens the path from `x` on the way.
    pub fn find(&mut self, x: usize) -> (r: usize)
        requires
            old(self).wf(old(self).parents().len()),
            x < old(self).parents().len(),
        ensures
            r == old(self).root_of(x as int),
            final(self).wf(old(self).parents().len()),
            forall|y: int| #[trigger] final(self).root_of(y) == old(self).root_of(y),
            forall|j: int| x < j < old(self).parents().len() ==> #[trigger] final(self).parents()[j] == old(self).parents()[j],
        decreases x,
    {
        let ghost p0 = self.parent@;
        let px = self.parent[x];
        if px != x {
            let r = self.find(px);
            let ghost p1 = self.parent@;
            proof {
                assert(p1[x as int] == px);
                assert(uf_root(p1, x as int) == uf_root(p1, px as int));
                assert(self.root_of(px as int) == uf_root(p1, px as int));
                assert(r as int == uf_root(p1, x as int));
                lemma_compress(p1, x as int, 0);
                assert forall|y: int| #[trigger] uf_root(p1.update(x as int, r), y) == uf_root(p0, y) by {
                    lemma_compress(p1, x as int, y);
                    assert(self.root_of(y) == uf_root(p1, y));
                }
            }
            self.parent.set(x, r);
        } else {
            proof {
                assert(uf_root(p0, x as int) == x);
            }
        }
        proof {
            lemma_root(self.parent@, x as int);
        }
        self.parent[x]
    }

    /// Merges the sets of `a` and `b`; the smaller representative stays.
    pub fn union(&mut self, a: usize, b: usize)
        requires
            old(self).wf(old(self).parents().len()),
            a < old(self).parents().len(),
            b < old(self).parents().len(),
        ensures
            final(self).wf(old(self).parents().len()),
            forall|y: int| #[trigger] final(self).root_of(y) == ({
                let ra = old(self).root_of(a as int);
                let rb = old(self).root_of(b as int);
                let lo = if ra < rb { ra } else { rb };
                let hi = if ra < rb { rb } else { ra };
                if old(self).root_of(y) == hi { lo } else { old(self).root_of(y) }
            }),
    {
        let ghost p0 = self.parent@;
        let ra = self.find(a);
        let ghost pm = self.parent@;
        let ghost sm = self.root_of(0);
        assert forall|y: int| #[trigger] uf_root(pm, y) == uf_root(p0, y) by {
            assert(self.root_of(y) == uf_root(pm, y));
        }
        let rb = self.find(b);
        let ghost p1 = self.parent@;
        assert forall|y: int| #[trigger] uf_root(p1, y) == uf_root(p0, y) by {
            assert(self.root_of(y) == uf_root(p1, y));
            assert(uf_root(pm, y) == uf_root(p0, y));
        }
        proof {
            lemma_root(p1, a as int);
            lemma_root(p1, b as int);
        }
        if ra != rb {
            if ra < rb {
                proof {
                    lemma_link(p1, ra as int, rb as int, 0);
                }
                self.parent.set(rb, ra);
                assert forall|y: int| #[trigger] self.root_of(y) == (if uf_root(p0, y) == rb { ra as int } else { uf_root(p0, y) }) by {
                    lemma_link(p1, ra as int, rb as int, y);
                }
            } else {
                proof {
                    lemma_link(p1, rb as int, ra as int, 0);
                }
                self.parent.set(ra, rb);
                assert forall|y: int| #[trigger] self.root_of(y) == (if uf_root(p0, y) == ra { rb as int } else { uf_root(p0, y) }) by {
                    lemma_link(p1, rb as int, ra as int, y);
                }
            }
        } else {
            assert forall|y: int| #[trigger] self.root_of(y) == uf_root(p0, y) by {
                assert(uf_root(p1, y) == uf_root(p0, y));
            }
        }
    }
}

} // verus!

verus! {

// ---------------------------------------------------------------------------
// Branch segments
// ---------------------------------------------------------------------------

/// A group of side rows joined by first-parent links.
#[derive(Debug)]
pub struct BranchSegment {
    /// Hexadecimal id of the segment's tip (its first row).
    pub id: String,
    /// Label shown when the segment is collapsed.
    pub display_name: String,
    /// Rows of the segment, in increasing order.
    pub row_indices: Vec<usize>,
}

/// Index `>= i` of the first label that is not a tag, or `labels.len()`.
pub open spec fn first_branch_label_from(labels: Seq<BranchLabel>, i: int) -> int
    decreases labels.len() - i,
{
    if i >= labels.len() {
        labels.len() as int
    } else if !labels[i].is_tag {
        i
    } else {
        first_branch_label_from(labels, i + 1)
    }
}

/// Name of a segment whose tip is `row`: its first branch (non-tag) label,
/// else the row's short id.
pub open spec fn segment_name(row: GraphRow) -> Seq<char> {
    let k = first_branch_label_from(row.labels@, 0);
    if 0 <= k < row.labels@.len() {
        row.labels@[k].name@
    } else {
        row.short_id@
    }
}

fn segment_display_name(row: &GraphRow) -> (r: String)
    ensures
        r@ == segment_name(*row),
{
    let mut i: usize = 0;
    while i < row.labels.len()
        invariant
            i <= row.labels@.len(),
            first_branch_label_from(row.labels@, 0) == first_branch_label_from(row.labels@, i as int),
        decreases row.labels@.len() - i,
    {
        if !row.labels[i].is_tag {
            return row.labels[i].name.clone();
        }
        i = i + 1;
    }
    row.short_id.clone()
}

/// Along a walk of side rows, all rows share one representative when every
/// first-parent link between side rows joins rows with one representative.
proof fn lemma_path_same_root(rows: Seq<GraphRow>, p1: Seq<usize>, p: Seq<int>, k: int)
    requires
        path_ok(rows, p),
        0 <= k < p.len(),
        forall|j: int|
            side_row(rows, j) && side_row(rows, fp_idx(rows, j)) ==> #[trigger] uf_root(p1, j)
                == uf_root(p1, fp_idx(rows, j)),
    ensures
        uf_root(p1, p[k]) == uf_root(p1, p[0]),
    decreases k,
{
    if k > 0 {
        lemma_path_same_root(rows, p1, p, k - 1);
        assert(linked(rows, p[k - 1], p[k]));
        if fp_idx(rows, p[k - 1]) == p[k] {
            assert(uf_root(p1, p[k - 1]) == uf_root(p1, fp_idx(rows, p[k - 1])));
        } else {
            assert(uf_root(p1, p[k]) == uf_root(p1, fp_idx(rows, p[k])));
        }
    }
}

/// Facts about the representatives after side rows are linked.
pub open spec fn linked_roots(rows: Seq<GraphRow>, p: Seq<usize>) -> bool {
    &&& uf_wf(p)
    &&& p.len() == rows.len()
    &&& forall|x: int| 0 <= x < rows.len() && !side_row(rows, x) ==> #[trigger] uf_root(p, x) == x
    &&& forall|x: int|
        side_row(rows, x) ==> side_row(rows, #[trigger] uf_root(p, x)) && connected(rows, x, uf_root(p, x))
    &&& forall|j: int|
        side_row(rows, j) && side_row(rows, fp_idx(rows, j)) ==> #[trigger] uf_root(p, j) == uf_root(p, fp_idx(rows, j))
}

/// Unions every side row with its side first parent.
fn link_side_rows(rows: &Vec<GraphRow>, trunk: &Vec<bool>) -> (uf: UnionFind)
    requires
        trunk@.len() == rows@.len(),
        forall|x: int| 0 <= x < rows@.len() ==> (#[trigger] trunk@[x] <==> in_trunk(rows@, x)),
    ensures
        uf.wf(rows@.len()),
        linked_roots(rows@, uf.parents()),
{
    let n = rows.len();
    let mut uf = UnionFind::new(n);
    proof {
        assert forall|x: int| side_row(rows@, x) implies side_row(rows@, #[trigger] uf.root_of(x)) && connected(rows@, x, uf.root_of(x)) by {
            lemma_connected_refl(rows@, x);
        }
    }
    let mut i: usize = 0;
    while i < n
        invariant
            n == rows@.len(),
            trunk@.len() == n,
            forall|x: int| 0 <= x < n ==> (#[trigger] trunk@[x] <==> in_trunk(rows@, x)),
            i <= n,
            uf.wf(n as nat),
            forall|x: int| 0 <= x < n && !side_row(rows@, x) ==> #[trigger] uf.root_of(x) == x,
            forall|x: int|
                side_row(rows@, x) ==> side_row(rows@, #[trigger] uf.root_of(x)) && connected(rows@, x, uf.root_of(x)),
            forall|j: int|
                0 <= j < i && side_row(rows@, j) && side_row(rows@, fp_idx(rows@, j)) ==> #[trigger] uf.root_of(j)
                    == uf.root_of(fp_idx(rows@, j)),
        decreases n - i,
    {
        let ghost before = uf.parents();
        if !trunk[i] {
            match first_parent_index(rows, i) {
                Some(pi) => {
                    proof {
                        lemma_fp_idx(rows@, i as int);
                    }
                    if !trunk[pi] {
                        let ghost ra = uf_root(before, i as int);
                        let ghost rb = uf_root(before, pi as int);
                        proof {
                            assert(uf.root_of(i as int) == ra);
                            assert(uf.root_of(pi as int) == rb);
                            assert(side_row(rows@, i as int));
                            assert(side_row(rows@, pi as int));
                            assert(connected(rows@, i as int, ra));
                            assert(connected(rows@, pi as int, rb));
                            assert(linked(rows@, i as int, pi as int));
                            lemma_connected_link(rows@, i as int, pi as int);
                            lemma_connected_sym(rows@, i as int, ra);
                            lemma_connected_trans(rows@, ra, i as int, pi as int);
                            lemma_connected_trans(rows@, ra, pi as int, rb);
                            lemma_connected_sym(rows@, ra, rb);
                        }
                        uf.union(i, pi);
                        proof {
                            link_step_facts(rows@, before, uf.parents(), i as int, pi as int);
                        }
                    }
                },
                None => {},
            }
        }
        i = i + 1;
    }
    uf
}

/// Invariant maintenance for one union of side rows `a` and `b = fp(a)`.
proof fn link_step_facts(rows: Seq<GraphRow>, before: Seq<usize>, after: Seq<usize>, a: int, b: int)
    requires
        uf_wf(before),
        before.len() == rows.len(),
        side_row(rows, a),
        side_row(rows, b),
        fp_idx(rows, a) == b,
        forall|x: int| 0 <= x < rows.len() && !side_row(rows, x) ==> #[trigger] uf_root(before, x) == x,
        forall|x: int|
            side_row(rows, x) ==> side_row(rows, #[trigger] uf_root(before, x)) && connected(rows, x, uf_root(before, x)),
        forall|j: int|
            0 <= j < a && side_row(rows, j) && side_row(rows, fp_idx(rows, j)) ==> #[trigger] uf_root(before, j)
                == uf_root(before, fp_idx(rows, j)),
        connected(rows, uf_root(before, a), uf_root(before, b)),
        connected(rows, uf_root(before, b), uf_root(before, a)),
        forall|y: int| #[trigger] uf_root(after, y) == ({
            let ra = uf_root(before, a);
            let rb = uf_root(before, b);
            let lo = if ra < rb { ra } else { rb };
            let hi = if ra < rb { rb } else { ra };
            if uf_root(before, y) == hi { lo } else { uf_root(before, y) }
        }),
    ensures
        forall|x: int| 0 <= x < rows.len() && !side_row(rows, x) ==> #[trigger] uf_root(after, x) == x,
        forall|x: int|
            side_row(rows, x) ==> side_row(rows, #[trigger] uf_root(after, x)) && connected(rows, x, uf_root(after, x)),
        forall|j: int|
            0 <= j < a + 1 && side_row(rows, j) && side_row(rows, fp_idx(rows, j)) ==> #[trigger] uf_root(after, j)
                == uf_root(after, fp_idx(rows, j)),
{
    let ra = uf_root(before, a);
    let rb = uf_root(before, b);
    let lo = if ra < rb { ra } else { rb };
    let hi = if ra < rb { rb } else { ra };
    assert(connected(rows, hi, lo));
    assert(side_row(rows, ra));
    assert(side_row(rows, rb));
    assert forall|x: int| 0 <= x < rows.len() && !side_row(rows, x) implies #[trigger] uf_root(after, x) == x by {
        assert(uf_root(before, x) == x);
        assert(uf_root(after, x) == (if uf_root(before, x) == hi { lo } else { uf_root(before, x) }));
    }
    assert forall|x: int| side_row(rows, x) implies side_row(rows, #[trigger] uf_root(after, x)) && connected(rows, x, uf_root(after, x)) by {
        let r0 = uf_root(before, x);
        assert(connected(rows, x, r0));
        assert(uf_root(after, x) == (if r0 == hi { lo } else { r0 }));
        if r0 == hi {
            lemma_connected_trans(rows, x, hi, lo);
        }
    }
    assert forall|j: int|
        0 <= j < a + 1 && side_row(rows, j) && side_row(rows, fp_idx(rows, j)) implies #[trigger] uf_root(after, j)
            == uf_root(after, fp_idx(rows, j)) by {
        let f = fp_idx(rows, j);
        assert(uf_root(after, f) == (if uf_root(before, f) == hi { lo } else { uf_root(before, f) }));
        assert(uf_root(after, j) == (if uf_root(before, j) == hi { lo } else { uf_root(before, j) }));
        if j < a {
            assert(uf_root(before, j) == uf_root(before, f));
        } else {
            assert(f == b);
        }
    }
}

/// Representative of every row.
fn representatives(uf: &mut UnionFind, n: usize) -> (rv: Vec<usize>)
    requires
        old(uf).wf(n as nat),
    ensures
        rv@.len() == n,
        forall|y: int| 0 <= y < n ==> #[trigger] rv@[y] as int == uf_root(old(uf).parents(), y),
        final(uf).wf(n as nat),
{
    let ghost p1 = uf.parents();
    let mut rv: Vec<usize> = Vec::new();
    let mut x: usize = 0;
    while x < n
        invariant
            x <= n,
            uf.wf(n as nat),
            forall|y: int| #[trigger] uf_root(uf.parents(), y) == uf_root(p1, y),
            rv@.len() == x,
            forall|y: int| 0 <= y < x ==> #[trigger] rv@[y] as int == uf_root(p1, y),
        decreases n - x,
    {
        let ghost before = uf.parents();
        let r = uf.find(x);
        proof {
            assert forall|y: int| #[trigger] uf_root(uf.parents(), y) == uf_root(p1, y) by {
                assert(uf.root_of(y) == uf_root(before, y));
            }
        }
        rv.push(r);
        x = x + 1;
    }
    rv
}

/// Side rows from `t` on whose representative is `t`, in increasing order.
fn collect_members(trunk: &Vec<bool>, rv: &Vec<usize>, t: usize) -> (m: Vec<usize>)
    requires
        t < rv@.len(),
        trunk@.len() == rv@.len(),
        !trunk@[t as int],
        rv@[t as int] == t,
    ensures
        m@.len() >= 1,
        m@[0] == t,
        forall|k: int| 0 <= k < m@.len() ==> t <= #[trigger] m@[k] < rv@.len() && !trunk@[m@[k] as int] && rv@[m@[k] as int] == t,
        forall|k1: int, k2: int| 0 <= k1 < k2 < m@.len() ==> #[trigger] m@[k1] < #[trigger] m@[k2],
        forall|z: int| t <= z < rv@.len() && !trunk@[z] && rv@[z] == t ==> #[trigger] m@.contains(z as usize),
{
    let n = rv.len();
    let mut m: Vec<usize> = Vec::new();
    m.push(t);
    let mut y: usize = t + 1;
    assert forall|z: int| t <= z < y && !trunk@[z] && rv@[z] == t implies #[trigger] m@.contains(z as usize) by {
        assert(m@[0] == z as usize);
    }
    while y < n
        invariant
            n == rv@.len(),
            trunk@.len() == n,
            t < y <= n,
            m@.len() >= 1,
            m@[0] == t,
            forall|k: int| 0 <= k < m@.len() ==> t <= #[trigger] m@[k] < y && !trunk@[m@[k] as int] && rv@[m@[k] as int] == t,
            forall|k1: int, k2: int| 0 <= k1 < k2 < m@.len() ==> #[trigger] m@[k1] < #[trigger] m@[k2],
            forall|z: int| t <= z < y && !trunk@[z] && rv@[z] == t ==> #[trigger] m@.contains(z as usize),
            !trunk@[t as int],
            rv@[t as int] == t,
        decreases n - y,
    {
        if !trunk[y] && rv[y] == t {
            let ghost before = m@;
            m.push(y);
            proof {
                assert forall|z: int| t <= z < y + 1 && !trunk@[z] && rv@[z] == t implies #[trigger] m@.contains(z as usize) by {
                    if z < y {
                        assert(before.contains(z as usize));
                        let k = choose|k: int| 0 <= k < before.len() && before[k] == z as usize;
                        assert(m@[k] == z as usize);
                    } else {
                        assert(m@[m@.len() - 1] == z as usize);
                    }
                }
            }
        }
        y = y + 1;
    }
    m
}

/// What the branch segments of `rows` are: each lists side rows in
/// increasing order; every side row is listed; two listed rows share a
/// segment exactly when they are connected off the trunk; segments are
/// ordered by their first row, which gives their id and name.
pub open spec fn segments_spec(rows: Seq<GraphRow>, segs: Seq<BranchSegment>) -> bool {
    &&& (forall|s: int|
            0 <= s < segs.len() ==> (#[trigger] segs[s]).row_indices@.len() >= 1 && (forall|k: int|
                0 <= k < segs[s].row_indices@.len() ==> side_row(rows, #[trigger] segs[s].row_indices@[k] as int))
                && (forall|k1: int, k2: int|
                0 <= k1 < k2 < segs[s].row_indices@.len() ==> #[trigger] segs[s].row_indices@[k1] < #[trigger] segs[s].row_indices@[k2]))
    &&& (forall|x: int|
            side_row(rows, x) ==> exists|s: int, k: int|
                0 <= s < segs.len() && 0 <= k < segs[s].row_indices@.len() && #[trigger] segs[s].row_indices@[k] == x)
    &&& (forall|s1: int, k1: int, s2: int, k2: int|
            0 <= s1 < segs.len() && 0 <= k1 < segs[s1].row_indices@.len() && 0 <= s2 < segs.len() && 0
                <= k2 < segs[s2].row_indices@.len() ==> (connected(
                rows,
                #[trigger] segs[s1].row_indices@[k1] as int,
                #[trigger] segs[s2].row_indices@[k2] as int,
            ) <==> s1 == s2))
    &&& (forall|s1: int, s2: int|
            0 <= s1 < s2 < segs.len() ==> (#[trigger] segs[s1]).row_indices@[0] < (
            #[trigger] segs[s2]).row_indices@[0])
    &&& (forall|s: int|
            0 <= s < segs.len() ==> (#[trigger] segs[s]).id@ == rows[segs[s].row_indices@[0] as int].oid@
                && segs[s].display_name@ == segment_name(rows[segs[s].row_indices@[0] as int]))
}

/// Groups the rows off the main trunk into branch segments.
pub fn compute_branch_segments(rows: &Vec<GraphRow>) -> (segs: Vec<BranchSegment>)
    ensures
        segments_spec(rows@, segs@),
{
    let n = rows.len();
    let trunk = trunk_rows(rows);
    let mut uf = link_side_rows(rows, &trunk);
    let ghost p1 = uf.parents();
    let rv = representatives(&mut uf, n);
    let mut segs: Vec<BranchSegment> = Vec::new();
    let mut t: usize = 0;
    while t < n
        invariant
            n == rows@.len(),
            t <= n,
            trunk@.len() == n,
            forall|y: int| 0 <= y < n ==> (#[trigger] trunk@[y] <==> in_trunk(rows@, y)),
            rv@.len() == n,
            linked_roots(rows@, p1),
            forall|y: int| 0 <= y < n ==> #[trigger] rv@[y] as int == uf_root(p1, y),
            forall|s: int|
                0 <= s < segs@.len() ==> {
                    let ri = (#[trigger] segs@[s]).row_indices@;
                    &&& ri.len() >= 1
                    &&& (ri[0] as int) < t
                    &&& side_row(rows@, ri[0] as int)
                    &&& uf_root(p1, ri[0] as int) == ri[0]
                    &&& (forall|k: int| 0 <= k < ri.len() ==> side_row(rows@, #[trigger] ri[k] as int) && uf_root(p1, ri[k] as int) == ri[0])
                    &&& (forall|k1: int, k2: int| 0 <= k1 < k2 < ri.len() ==> #[trigger] ri[k1] < #[trigger] ri[k2])
                    &&& (forall|y: int| 0 <= y < n && side_row(rows@, y) && uf_root(p1, y) == ri[0] ==> #[trigger] ri.contains(y as usize))
                    &&& segs@[s].id@ == rows@[ri[0] as int].oid@
                    &&& segs@[s].display_name@ == segment_name(rows@[ri[0] as int])
                },
            forall|s1: int, s2: int|
                0 <= s1 < s2 < segs@.len() ==> (#[trigger] segs@[s1]).row_indices@[0] < (#[trigger] segs@[s2]).row_indices@[0],
            forall|y: int|
                0 <= y < t && side_row(rows@, y) && uf_root(p1, y) == y ==> exists|s: int|
                    0 <= s < segs@.len() && (#[trigger] segs@[s]).row_indices@[0] == y,
        decreases n - t,
    {
        if !trunk[t] && rv[t] == t {
            let members = collect_members(&trunk, &rv, t);
            let seg = BranchSegment {
                id: rows[t].oid.to_hex(),
                display_name: segment_display_name(&rows[t]),
                row_indices: members,
            };
            let ghost before = segs@;
            segs.push(seg);
            proof {
                let ri = segs@[segs@.len() - 1].row_indices@;
                assert forall|z: int| 0 <= z < n && side_row(rows@, z) && uf_root(p1, z) == t implies #[trigger] ri.contains(z as usize) by {
                    lemma_root(p1, z);
                    assert(rv@[z] as int == uf_root(p1, z));
                }
                assert forall|k: int| 0 <= k < ri.len() implies side_row(rows@, #[trigger] ri[k] as int) && uf_root(p1, ri[k] as int) == ri[0] by {
                    assert(rv@[ri[k] as int] as int == uf_root(p1, ri[k] as int));
                }
                assert forall|s: int| 0 <= s < segs@.len() - 1 implies #[trigger] segs@[s] == before[s] by {}
                assert forall|y: int|
                    0 <= y < t + 1 && side_row(rows@, y) && uf_root(p1, y) == y implies exists|s: int|
                        0 <= s < segs@.len() && (#[trigger] segs@[s]).row_indices@[0] == y by {
                    if y < t {
                        let s = choose|s: int| 0 <= s < before.len() && (#[trigger] before[s]).row_indices@[0] == y;
                        assert(segs@[s] == before[s]);
                    } else {
                        assert(segs@[segs@.len() - 1].row_indices@[0] == y);
                    }
                }
            }
        } else {
            proof {
                if side_row(rows@, t as int) && uf_root(p1, t as int) == t {
                    assert(!trunk@[t as int]);
                    assert(rv@[t as int] as int == t);
                }
            }
        }
        t = t + 1;
    }
    proof {
        assert forall|s: int| 0 <= s < segs@.len() implies (forall|y: int|
            0 <= y < rows@.len() && side_row(rows@, y) && uf_root(p1, y) == (#[trigger] segs@[s]).row_indices@[0]
                ==> segs@[s].row_indices@.contains(y as usize)) by {
            let ri = segs@[s].row_indices@;
            assert forall|y: int| 0 <= y < n && side_row(rows@, y) && uf_root(p1, y) == ri[0] implies #[trigger] ri.contains(y as usize) by {}
        }
        segments_cover(rows@, p1, segs@);
        segments_separate(rows@, p1, segs@);
    }
    segs
}

/// Every side row is listed in some segment.
proof fn segments_cover(rows: Seq<GraphRow>, p1: Seq<usize>, segs: Seq<BranchSegment>)
    requires
        uf_wf(p1),
        p1.len() == rows.len(),
        rows.len() <= usize::MAX,
        forall|x: int| side_row(rows, x) ==> side_row(rows, #[trigger] uf_root(p1, x)),
        forall|s: int|
            0 <= s < segs.len() ==> (forall|y: int|
                0 <= y < rows.len() && side_row(rows, y) && uf_root(p1, y) == (#[trigger] segs[s]).row_indices@[0]
                    ==> segs[s].row_indices@.contains(y as usize)),
        forall|y: int|
            0 <= y < rows.len() && side_row(rows, y) && uf_root(p1, y) == y ==> exists|s: int|
                0 <= s < segs.len() && (#[trigger] segs[s]).row_indices@[0] == y,
    ensures
        forall|x: int|
            side_row(rows, x) ==> exists|s: int, k: int|
                0 <= s < segs.len() && 0 <= k < segs[s].row_indices@.len() && #[trigger] segs[s].row_indices@[k] == x,
{
    assert forall|x: int| side_row(rows, x) implies exists|s: int, k: int|
        0 <= s < segs.len() && 0 <= k < segs[s].row_indices@.len() && #[trigger] segs[s].row_indices@[k] == x by {
        let r = uf_root(p1, x);
        lemma_root(p1, x);
        assert(side_row(rows, r));
        lemma_root(p1, r);
        assert(uf_root(p1, r) == r);
        let s = choose|s: int| 0 <= s < segs.len() && (#[trigger] segs[s]).row_indices@[0] == r;
        let ri = segs[s].row_indices@;
        assert(0 <= x < rows.len());
        assert(ri.contains(x as usize));
        let k = choose|k: int| 0 <= k < ri.len() && ri[k] == x as usize;
        assert(segs[s].row_indices@[k] == x);
    }
}

/// Two listed rows are in one segment exactly when they are connected.
proof fn segments_separate(rows: Seq<GraphRow>, p1: Seq<usize>, segs: Seq<BranchSegment>)
    requires
        linked_roots(rows, p1),
        forall|s: int|
            0 <= s < segs.len() ==> {
                let ri = (#[trigger] segs[s]).row_indices@;
                &&& ri.len() >= 1
                &&& side_row(rows, ri[0] as int)
                &&& uf_root(p1, ri[0] as int) == ri[0]
                &&& (forall|k: int| 0 <= k < ri.len() ==> side_row(rows, #[trigger] ri[k] as int) && uf_root(p1, ri[k] as int) == ri[0])
                &&& (forall|y: int| 0 <= y < rows.len() && side_row(rows, y) && uf_root(p1, y) == ri[0] ==> #[trigger] ri.contains(y as usize))
            },
        forall|s1: int, s2: int|
            0 <= s1 < s2 < segs.len() ==> (#[trigger] segs[s1]).row_indices@[0] < (#[trigger] segs[s2]).row_indices@[0],
        forall|y: int|
            0 <= y < rows.len() && side_row(rows, y) && uf_root(p1, y) == y ==> exists|s: int|
                0 <= s < segs.len() && (#[trigger] segs[s]).row_indices@[0] == y,
    ensures
        forall|s1: int, k1: int, s2: int, k2: int|
            0 <= s1 < segs.len() && 0 <= k1 < segs[s1].row_indices@.len() && 0 <= s2 < segs.len() && 0
                <= k2 < segs[s2].row_indices@.len() ==> (connected(
                rows,
                #[trigger] segs[s1].row_indices@[k1] as int,
                #[trigger] segs[s2].row_indices@[k2] as int,
            ) <==> s1 == s2),
{
    assert forall|s1: int, k1: int, s2: int, k2: int|
        0 <= s1 < segs.len() && 0 <= k1 < segs[s1].row_indices@.len() && 0 <= s2 < segs.len() && 0
            <= k2 < segs[s2].row_indices@.len() implies (connected(
            rows,
            #[trigger] segs[s1].row_indices@[k1] as int,
            #[trigger] segs[s2].row_indices@[k2] as int,
        ) <==> s1 == s2) by {
        let a = segs[s1].row_indices@[k1] as int;
        let b = segs[s2].row_indices@[k2] as int;
        let ta = segs[s1].row_indices@[0] as int;
        let tb = segs[s2].row_indices@[0] as int;
        assert(uf_root(p1, a) == ta);
        assert(uf_root(p1, b) == tb);
        assert(connected(rows, a, ta));
        assert(connected(rows, b, tb));
        if s1 == s2 {
            lemma_connected_sym(rows, b, tb);
            lemma_connected_trans(rows, a, ta, b);
        }
        if connected(rows, a, b) {
            let p = choose|p: Seq<int>| #[trigger] path_ok(rows, p) && p[0] == a && p.last() == b;
            lemma_path_same_root(rows, p1, p, p.len() - 1);
            if s1 != s2 {
                if s1 < s2 {
                    assert(ta < tb);
                } else {
                    assert(tb < ta);
                }
            }
        }
    }
}

} // verus!
