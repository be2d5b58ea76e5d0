//! Branch and tag labels of the commit graph: which references are shown
//! for a branch filter, how each label is flagged, and in which order the
//! labels of one commit appear.
use vstd::prelude::*;
use crate::config::BranchFilter;
use crate::graph::{clone_labels, BranchLabel, RefLabels};
use crate::oid::Oid;
use crate::sort::{stable_order, stable_order_spec};
use crate::text::{str_chars, str_eq, string_views};

verus! {

/// Rank of a label: HEAD first, then branches before tags, then local
/// before remote.
pub open spec fn label_rank(l: BranchLabel) -> int {
    (if l.is_head { 0int } else { 4int }) + (if l.is_tag { 2int } else { 0int }) + (if l.is_remote { 1int } else { 0int })
}

/// Sort key of a label: its rank, then its name.
pub open spec fn label_key(l: BranchLabel) -> Seq<char> {
    seq![('0' as int + label_rank(l)) as char] + l.name@
}

/// Sort keys of a sequence of labels.
pub open spec fn label_keys(v: Seq<BranchLabel>) -> Seq<Seq<char>> {
    v.map_values(|l: BranchLabel| label_key(l))
}

/// The label of branch `name` at `target`.
pub open spec fn branch_label(
    name: String,
    target: Oid,
    is_remote: bool,
    head_oid: Option<Oid>,
    head_name: Option<String>,
    worktree_branches: Seq<String>,
) -> BranchLabel {
    BranchLabel {
        name,
        is_head: !is_remote && (head_oid matches Some(h) && h@ == target@) && (head_name matches Some(n) && n@ == name@),
        is_remote,
        is_worktree: !is_remote && string_views(worktree_branches).contains(name@),
        is_tag: false,
    }
}

/// `(target, label)` for each branch of `refs`.
pub open spec fn branch_entries(
    refs: Seq<(String, Oid)>,
    is_remote: bool,
    head_oid: Option<Oid>,
    head_name: Option<String>,
    worktree_branches: Seq<String>,
) -> Seq<(Oid, BranchLabel)> {
    refs.map_values(
        |r: (String, Oid)| (r.1, branch_label(r.0, r.1, is_remote, head_oid, head_name, worktree_branches)),
    )
}

/// `(target, label)` for each tag of `tags`.
pub open spec fn tag_entries(tags: Seq<(String, Oid)>) -> Seq<(Oid, BranchLabel)> {
    tags.map_values(
        |t: (String, Oid)| (t.1, BranchLabel { name: t.0, is_head: false, is_remote: false, is_worktree: false, is_tag: true }),
    )
}

/// Every label shown under `filter`, in discovery order: local branches,
/// remote branches, then tags; nothing when labels are off.
pub open spec fn shown_entries(
    local: Seq<(String, Oid)>,
    remote: Seq<(String, Oid)>,
    tags: Seq<(String, Oid)>,
    head_oid: Option<Oid>,
    head_name: Option<String>,
    worktree_branches: Seq<String>,
    filter: BranchFilter,
) -> Seq<(Oid, BranchLabel)> {
    let l = branch_entries(local, false, head_oid, head_name, worktree_branches);
    let r = branch_entries(remote, true, head_oid, head_name, worktree_branches);
    let t = tag_entries(tags);
    match filter {
        BranchFilter::All => l + r + t,
        BranchFilter::Local => l + t,
        BranchFilter::Remote => r + t,
        BranchFilter::Off => Seq::empty(),
    }
}

/// Labels of the entries for commit `id`, in order.
pub open spec fn labels_of(entries: Seq<(Oid, BranchLabel)>, id: Seq<char>) -> Seq<BranchLabel>
    decreases entries.len(),
{
    if entries.len() == 0 {
        Seq::empty()
    } else {
        let rest = labels_of(entries.drop_last(), id);
        if entries.last().0@ == id {
            rest.push(entries.last().1)
        } else {
            rest
        }
    }
}

proof fn lemma_labels_of_absent(entries: Seq<(Oid, BranchLabel)>, id: Seq<char>)
    requires
        forall|j: int| 0 <= j < entries.len() ==> (#[trigger] entries[j]).0@ != id,
    ensures
        labels_of(entries, id) == Seq::<BranchLabel>::empty(),
    decreases entries.len(),
{
    if entries.len() > 0 {
        lemma_labels_of_absent(entries.drop_last(), id);
    }
}

/// The key of a label.
fn label_key_exec(l: &BranchLabel) -> (r: Vec<char>)
    ensures
        r@ == label_key(*l),
{
    let mut rank: u32 = if l.is_head {
        0
    } else {
        4
    };
    if l.is_tag {
        rank = rank + 2;
    }
    if l.is_remote {
        rank = rank + 1;
    }
    let c: char = match rank {
        0 => '0',
        1 => '1',
        2 => '2',
        3 => '3',
        4 => '4',
        5 => '5',
        6 => '6',
        _ => '7',
    };
    let mut r: Vec<char> = Vec::new();
    r.push(c);
    let name = str_chars(l.name.as_str());
    let mut i: usize = 0;
    while i < name.len()
        invariant
            i <= name@.len(),
            r@ == seq![c] + name@.take(i as int),
        decreases name@.len() - i,
    {
        r.push(name[i]);
        assert(name@.take(i + 1) =~= name@.take(i as int).push(name@[i as int]));
        assert(r@ =~= seq![c] + name@.take(i + 1));
        i = i + 1;
    }
    assert(name@.take(i as int) =~= name@);
    r
}

/// `v` rearranged as `p` lists its positions.
fn permute_labels(v: &Vec<BranchLabel>, p: &Vec<usize>) -> (r: Vec<BranchLabel>)
    requires
        forall|i: int| 0 <= i < p@.len() ==> (#[trigger] p@[i]) < v@.len(),
    ensures
        r@.len() == p@.len(),
        forall|i: int| 0 <= i < p@.len() ==> #[trigger] r@[i] == v@[p@[i] as int],
{
    let mut r: Vec<BranchLabel> = Vec::new();
    let mut i: usize = 0;
    while i < p.len()
        invariant
            i <= p@.len(),
            forall|k: int| 0 <= k < p@.len() ==> (#[trigger] p@[k]) < v@.len(),
            r@.len() == i,
            forall|k: int| 0 <= k < i ==> #[trigger] r@[k] == v@[p@[k] as int],
        decreases p@.len() - i,
    {
        r.push(v[p[i]].clone());
        i = i + 1;
    }
    r
}

/// Labels in display order (stable: equal keys keep their order).
pub fn sort_labels(v: &Vec<BranchLabel>) -> (r: Vec<BranchLabel>)
    ensures
        exists|p: Seq<usize>| #[trigger] sorted_as(r@, v@, p),
{
    let mut keys: Vec<Vec<char>> = Vec::new();
    let mut i: usize = 0;
    while i < v.len()
        invariant
            i <= v@.len(),
            keys@.len() == i,
            forall|j: int| 0 <= j < i ==> (#[trigger] keys@[j])@ == label_key(v@[j]),
        decreases v@.len() - i,
    {
        keys.push(label_key_exec(&v[i]));
        i = i + 1;
    }
    assert(keys@.map_values(|k: Vec<char>| k@) =~= label_keys(v@));
    let p = stable_order(&keys);
    let r = permute_labels(v, &p);
    assert(sorted_as(r@, v@, p@));
    r
}

/// `out` is `ls` in display order, rearranged as `p` lists positions.
pub open spec fn sorted_as(out: Seq<BranchLabel>, ls: Seq<BranchLabel>, p: Seq<usize>) -> bool {
    &&& stable_order_spec(label_keys(ls), p)
    &&& out.len() == p.len()
    &&& forall|i: int| 0 <= i < p.len() ==> #[trigger] out[i] == ls[p[i] as int]
}

/// Whether some id of `oids` denotes commit `id`.
pub open spec fn has_oid(oids: Seq<Oid>, id: Seq<char>) -> bool {
    exists|g: int| 0 <= g < oids.len() && (#[trigger] oids[g])@ == id
}

/// Whether some entry of `r` is for commit `id`.
pub open spec fn has_entry(r: Seq<RefLabels>, id: Seq<char>) -> bool {
    exists|g: int| 0 <= g < r.len() && (#[trigger] r[g]).oid@ == id
}

/// The labels of `entry` are those of its commit among `es`, in display
/// order.
pub open spec fn sorted_entry(entry: RefLabels, es: Seq<(Oid, BranchLabel)>) -> bool {
    exists|p: Seq<usize>| #[trigger] sorted_as(entry.labels@, labels_of(es, entry.oid@), p)
}

/// Whether some entry of `es` is for commit `id`.
pub open spec fn from_entries(es: Seq<(Oid, BranchLabel)>, id: Seq<char>) -> bool {
    exists|k: int| 0 <= k < es.len() && (#[trigger] es[k]).0@ == id
}

/// Whether `v` holds `s`.
fn holds_name(v: &Vec<String>, s: &str) -> (r: bool)
    ensures
        r == string_views(v@).contains(s@),
{
    crate::text::contains_string(v, s)
}

/// Appends the labels of the branches `refs` to `out`.
fn push_branch_entries(
    out: &mut Vec<(Oid, BranchLabel)>,
    refs: &Vec<(String, Oid)>,
    is_remote: bool,
    head_oid: &Option<Oid>,
    head_name: &Option<String>,
    worktree_branches: &Vec<String>,
)
    ensures
        final(out)@ == old(out)@ + branch_entries(refs@, is_remote, *head_oid, *head_name, worktree_branches@),
{
    let ghost start = out@;
    let mut i: usize = 0;
    while i < refs.len()
        invariant
            i <= refs@.len(),
            out@ == start + branch_entries(refs@.take(i as int), is_remote, *head_oid, *head_name, worktree_branches@),
        decreases refs@.len() - i,
    {
        let name = refs[i].0.clone();
        let target = refs[i].1.clone();
        let at_head = match head_oid {
            Some(h) => h.same(&target),
            None => false,
        };
        let named_head = match head_name {
            Some(n) => str_eq(n.as_str(), name.as_str()),
            None => false,
        };
        let in_worktree = holds_name(worktree_branches, name.as_str());
        let label = BranchLabel {
            name,
            is_head: !is_remote && at_head && named_head,
            is_remote,
            is_worktree: !is_remote && in_worktree,
            is_tag: false,
        };
        out.push((target, label));
        assert(refs@.take(i + 1) =~= refs@.take(i as int).push(refs@[i as int]));
        assert(out@ =~= start + branch_entries(refs@.take(i + 1), is_remote, *head_oid, *head_name, worktree_branches@));
        i = i + 1;
    }
    assert(refs@.take(i as int) =~= refs@);
}

/// Appends the labels of the tags `tags` to `out`.
fn push_tag_entries(out: &mut Vec<(Oid, BranchLabel)>, tags: &Vec<(String, Oid)>)
    ensures
        final(out)@ == old(out)@ + tag_entries(tags@),
{
    let ghost start = out@;
    let mut i: usize = 0;
    while i < tags.len()
        invariant
            i <= tags@.len(),
            out@ == start + tag_entries(tags@.take(i as int)),
        decreases tags@.len() - i,
    {
        let label = BranchLabel {
            name: tags[i].0.clone(),
            is_head: false,
            is_remote: false,
            is_worktree: false,
            is_tag: true,
        };
        out.push((tags[i].1.clone(), label));
        assert(tags@.take(i + 1) =~= tags@.take(i as int).push(tags@[i as int]));
        assert(out@ =~= start + tag_entries(tags@.take(i + 1)));
        i = i + 1;
    }
    assert(tags@.take(i as int) =~= tags@);
}

/// Position of the first id of `oids` denoting `oid`, or `oids.len()`.
fn find_oid(oids: &Vec<Oid>, oid: &Oid) -> (r: usize)
    ensures
        r <= oids@.len(),
        r < oids@.len() ==> oids@[r as int]@ == oid@,
        forall|h: int| 0 <= h < r ==> (#[trigger] oids@[h])@ != oid@,
{
    let mut g: usize = 0;
    while g < oids.len()
        invariant
            g <= oids@.len(),
            forall|h: int| 0 <= h < g ==> (#[trigger] oids@[h])@ != oid@,
        decreases oids@.len() - g,
    {
        if oids[g].same(oid) {
            return g;
        }
        g = g + 1;
    }
    g
}

/// Groups the labels by commit: one entry per commit, with its labels in
/// discovery order.
fn group_labels(entries: &Vec<(Oid, BranchLabel)>) -> (r: (Vec<Oid>, Vec<Vec<BranchLabel>>))
    ensures
        r.0@.len() == r.1@.len(),
        forall|a: int, b: int| 0 <= a < b < r.0@.len() ==> (#[trigger] r.0@[a])@ != (#[trigger] r.0@[b])@,
        forall|k: int| 0 <= k < entries@.len() ==> has_oid(r.0@, (#[trigger] entries@[k]).0@),
        forall|g: int| 0 <= g < r.0@.len() ==> (#[trigger] r.1@[g])@ == labels_of(entries@, r.0@[g]@),
        forall|g: int| 0 <= g < r.0@.len() ==> from_entries(entries@, (#[trigger] r.0@[g])@),
{
    let mut oids: Vec<Oid> = Vec::new();
    let mut groups: Vec<Vec<BranchLabel>> = Vec::new();
    let mut k: usize = 0;
    while k < entries.len()
        invariant
            k <= entries@.len(),
            oids@.len() == groups@.len(),
            forall|a: int, b: int| 0 <= a < b < oids@.len() ==> (#[trigger] oids@[a])@ != (#[trigger] oids@[b])@,
            forall|j: int| 0 <= j < k ==> has_oid(oids@, (#[trigger] entries@[j]).0@),
            forall|g: int| 0 <= g < oids@.len() ==> (#[trigger] groups@[g])@ == labels_of(entries@.take(k as int), oids@[g]@),
            forall|g: int| 0 <= g < oids@.len() ==> from_entries(entries@, (#[trigger] oids@[g])@),
        decreases entries@.len() - k,
    {
        let ghost before = entries@.take(k as int);
        let ghost x = entries@[k as int];
        assert(entries@.take(k + 1) =~= before.push(x));
        assert(entries@.take(k + 1).drop_last() =~= before);
        let oid = &entries[k].0;
        let g = find_oid(&oids, oid);
        if g < oids.len() {
            let mut labels = clone_labels(&groups[g]);
            labels.push(entries[k].1.clone());
            let ghost old_groups = groups@;
            groups.set(g, labels);
            proof {
                assert forall|h: int| 0 <= h < oids@.len() implies (#[trigger] groups@[h])@ == labels_of(
                    entries@.take(k + 1),
                    oids@[h]@,
                ) by {
                    if h != g {
                        assert(oids@[h]@ != oids@[g as int]@);
                    }
                }
                assert forall|j: int| 0 <= j < k + 1 implies has_oid(oids@, (#[trigger] entries@[j]).0@) by {
                    if j == k {
                        assert(oids@[g as int]@ == entries@[j].0@);
                    }
                }
            }
        } else {
            proof {
                assert forall|j: int| 0 <= j < before.len() implies (#[trigger] before[j]).0@ != oid@ by {
                    assert(before[j] == entries@[j]);
                    assert(has_oid(oids@, entries@[j].0@));
                    let gg = choose|gg: int| 0 <= gg < oids@.len() && (#[trigger] oids@[gg])@ == entries@[j].0@;
                    assert(oids@[gg]@ != oid@);
                }
                lemma_labels_of_absent(before, oid@);
            }
            let ghost old_oids = oids@;
            oids.push(oid.clone());
            let mut labels: Vec<BranchLabel> = Vec::new();
            labels.push(entries[k].1.clone());
            groups.push(labels);
            proof {
                assert(groups@[old_oids.len() as int]@ =~= Seq::<BranchLabel>::empty().push(x.1));
                assert forall|h: int| 0 <= h < oids@.len() implies (#[trigger] groups@[h])@ == labels_of(
                    entries@.take(k + 1),
                    oids@[h]@,
                ) by {
                    if h < old_oids.len() {
                        assert(oids@[h] == old_oids[h]);
                        assert(old_oids[h]@ != oid@);
                    }
                }
                assert forall|a: int, b: int| 0 <= a < b < oids@.len() implies (#[trigger] oids@[a])@ != (
                #[trigger] oids@[b])@ by {
                    if b == old_oids.len() {
                        assert(oids@[a] == old_oids[a]);
                    } else {
                        assert(oids@[a] == old_oids[a] && oids@[b] == old_oids[b]);
                    }
                }
                assert forall|h: int| 0 <= h < oids@.len() implies from_entries(entries@, (#[trigger] oids@[h])@) by {
                    if h < old_oids.len() {
                        assert(oids@[h] == old_oids[h]);
                        assert(from_entries(entries@, old_oids[h]@));
                    } else {
                        assert(entries@[k as int].0@ == oids@[h]@);
                    }
                }
                assert forall|j: int| 0 <= j < k + 1 implies has_oid(oids@, (#[trigger] entries@[j]).0@) by {
                    if j == k {
                        assert(oids@[old_oids.len() as int]@ == entries@[j].0@);
                    } else {
                        assert(has_oid(old_oids, entries@[j].0@));
                        let gg = choose|gg: int| 0 <= gg < old_oids.len() && (#[trigger] old_oids[gg])@ == entries@[j].0@;
                        assert(oids@[gg] == old_oids[gg]);
                    }
                }
            }
        }
        k = k + 1;
    }
    assert(entries@.take(k as int) =~= entries@);
    (oids, groups)
}

/// Labels of the commits under branch filter `filter`, from the local
/// branches, remote branches and tags `(name, target)` of a repository,
/// its HEAD (`head_oid`, `head_name`) and the branches checked out in its
/// linked worktrees: a local branch is marked as HEAD when it is the
/// checked-out branch at HEAD's commit and as a worktree branch when a
/// worktree has it out. Each commit gets one entry; its labels come HEAD
/// first, then branches before tags, local before remote, then by name.
pub fn resolve_labels(
    local: &Vec<(String, Oid)>,
    remote: &Vec<(String, Oid)>,
    tags: &Vec<(String, Oid)>,
    head_oid: &Option<Oid>,
    head_name: &Option<String>,
    worktree_branches: &Vec<String>,
    filter: BranchFilter,
) -> (r: Vec<RefLabels>)
    ensures
        ({
            let entries = shown_entries(local@, remote@, tags@, *head_oid, *head_name, worktree_branches@, filter);
            &&& forall|a: int, b: int| 0 <= a < b < r@.len() ==> (#[trigger] r@[a]).oid@ != (#[trigger] r@[b]).oid@
            &&& forall|k: int| 0 <= k < entries.len() ==> has_entry(r@, (#[trigger] entries[k]).0@)
            &&& forall|g: int| 0 <= g < r@.len() ==> sorted_entry(#[trigger] r@[g], entries)
            &&& forall|g: int| 0 <= g < r@.len() ==> from_entries(entries, (#[trigger] r@[g]).oid@)
        }),
        filter == BranchFilter::Off ==> r@.len() == 0,
{
    let mut entries: Vec<(Oid, BranchLabel)> = Vec::new();
    match filter {
        BranchFilter::Off => {
            return Vec::new();
        },
        BranchFilter::All => {
            push_branch_entries(&mut entries, local, false, head_oid, head_name, worktree_branches);
            push_branch_entries(&mut entries, remote, true, head_oid, head_name, worktree_branches);
        },
        BranchFilter::Local => {
            push_branch_entries(&mut entries, local, false, head_oid, head_name, worktree_branches);
        },
        BranchFilter::Remote => {
            push_branch_entries(&mut entries, remote, true, head_oid, head_name, worktree_branches);
        },
    }
    push_tag_entries(&mut entries, tags);
    let ghost es = entries@;
    assert(es =~= shown_entries(local@, remote@, tags@, *head_oid, *head_name, worktree_branches@, filter));
    let (oids, groups) = group_labels(&entries);
    let mut out: Vec<RefLabels> = Vec::new();
    let mut g: usize = 0;
    while g < oids.len()
        invariant
            g <= oids@.len(),
            oids@.len() == groups@.len(),
            out@.len() == g,
            forall|h: int| 0 <= h < g ==> (#[trigger] out@[h]).oid == oids@[h],
            forall|h: int| 0 <= h < g ==> sorted_entry(#[trigger] out@[h], es),
            forall|h: int| 0 <= h < oids@.len() ==> (#[trigger] groups@[h])@ == labels_of(es, oids@[h]@),
        decreases oids@.len() - g,
    {
        let sorted = sort_labels(&groups[g]);
        let ghost sv = sorted@;
        let ghost p = choose|p: Seq<usize>| #[trigger] sorted_as(sv, groups@[g as int]@, p);
        let ghost old_out = out@;
        out.push(RefLabels { oid: oids[g].clone(), labels: sorted });
        assert forall|h: int| 0 <= h < g implies sorted_entry(#[trigger] out@[h], es) by {
            assert(out@[h] == old_out[h]);
        }
        assert(out@[g as int].oid == oids@[g as int]);
        assert(sorted_as(out@[g as int].labels@, labels_of(es, out@[g as int].oid@), p));
        assert(sorted_entry(out@[g as int], es));
        g = g + 1;
    }
    proof {
        assert forall|a: int, b: int| 0 <= a < b < out@.len() implies (#[trigger] out@[a]).oid@ != (#[trigger] out@[b]).oid@ by {
            assert(out@[a].oid == oids@[a] && out@[b].oid == oids@[b]);
        }
        assert forall|g2: int| 0 <= g2 < out@.len() implies from_entries(es, (#[trigger] out@[g2]).oid@) by {
            assert(out@[g2].oid == oids@[g2]);
        }
        assert forall|k: int| 0 <= k < es.len() implies has_entry(out@, (#[trigger] es[k]).0@) by {
            assert(has_oid(oids@, es[k].0@));
            let gg = choose|gg: int| 0 <= gg < oids@.len() && (#[trigger] oids@[gg])@ == es[k].0@;
            assert(out@[gg].oid == oids@[gg]);
        }
    }
    out
}

} // verus!
