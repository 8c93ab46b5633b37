//! Free-space index: a derived cache of the maximal runs of contiguous
//! `Unused` clusters, sorted by length descending, used as a worst-fit
//! allocator for "find N contiguous free clusters" requests.

use vstd::prelude::*;
use crate::models::ClusterState;

verus! {

/// `(start, len)` is a maximal run of contiguous `Unused` clusters in `g`.
pub open spec fn is_free_run(g: Seq<ClusterState>, start: int, len: int) -> bool {
    &&& 0 <= start
    &&& 1 <= len
    &&& start + len <= g.len()
    &&& (forall|i: int| start <= i < start + len ==> g[i] == ClusterState::Unused)
    &&& (start == 0 || g[start - 1] != ClusterState::Unused)
    &&& (start + len == g.len() || g[start + len] != ClusterState::Unused)
}

/// Run `r` covers index `i`.
pub open spec fn run_covers(r: (usize, usize), i: int) -> bool {
    r.0 <= i < r.0 + r.1
}

/// The run list `rs` holds exactly the maximal free runs of `g`, each once.
pub open spec fn regions_match(rs: Seq<(usize, usize)>, g: Seq<ClusterState>) -> bool {
    &&& (forall|k: int|
        0 <= k < rs.len() ==> is_free_run(g, (#[trigger] rs[k]).0 as int, rs[k].1 as int))
    &&& (forall|i: int|
        0 <= i < g.len() && g[i] == ClusterState::Unused ==> exists|k: int|
            0 <= k < rs.len() && run_covers(#[trigger] rs[k], i))
    &&& (forall|k1: int, k2: int|
        0 <= k1 < rs.len() && 0 <= k2 < rs.len() && k1 != k2 ==> (#[trigger] rs[k1]).0 != (
        #[trigger] rs[k2]).0)
}

/// The run lengths are non-increasing.
pub open spec fn sorted_desc(rs: Seq<(usize, usize)>) -> bool {
    forall|k1: int, k2: int|
        0 <= k1 <= k2 < rs.len() ==> (#[trigger] rs[k1]).1 >= (#[trigger] rs[k2]).1
}

/// Runs of equal length appear in ascending order of start: the length
/// sort is stable over the left-to-right scan.
pub open spec fn eq_len_ascending(rs: Seq<(usize, usize)>) -> bool {
    forall|k1: int, k2: int|
        0 <= k1 < k2 < rs.len() && (#[trigger] rs[k1]).1 == (#[trigger] rs[k2]).1 ==> rs[k1].0
            < rs[k2].0
}

/// The starts are strictly ascending (the order the scan emits).
pub open spec fn starts_ascending(rs: Seq<(usize, usize)>) -> bool {
    forall|k1: int, k2: int|
        0 <= k1 < k2 < rs.len() ==> (#[trigger] rs[k1]).0 < (#[trigger] rs[k2]).0
}

/// The canonical order of the run list: longer first, ties by start.
pub open spec fn run_le(a: (usize, usize), b: (usize, usize)) -> bool {
    a.1 > b.1 || (a.1 == b.1 && a.0 <= b.0)
}

/// Two maximal free runs that share an index are the same run.
proof fn lemma_free_run_unique(g: Seq<ClusterState>, s1: int, l1: int, s2: int, l2: int, i: int)
    requires
        is_free_run(g, s1, l1),
        is_free_run(g, s2, l2),
        s1 <= i < s1 + l1,
        s2 <= i < s2 + l2,
    ensures
        s1 == s2,
        l1 == l2,
{
    if s1 < s2 {
        assert(g[s2 - 1] == ClusterState::Unused);
        assert(false);
    }
    if s2 < s1 {
        assert(g[s1 - 1] == ClusterState::Unused);
        assert(false);
    }
    if l1 < l2 {
        assert(g[s1 + l1] == ClusterState::Unused);
        assert(false);
    }
    if l2 < l1 {
        assert(g[s2 + l2] == ClusterState::Unused);
        assert(false);
    }
}

/// Any maximal free run of the grid appears in a matching run list.
pub proof fn lemma_free_run_listed(rs: Seq<(usize, usize)>, g: Seq<ClusterState>, s: int, l: int)
    requires
        regions_match(rs, g),
        is_free_run(g, s, l),
    ensures
        exists|k: int| 0 <= k < rs.len() && (#[trigger] rs[k]).0 == s && rs[k].1 == l,
{
    assert(g[s] == ClusterState::Unused);
    let k = choose|k: int| 0 <= k < rs.len() && run_covers(#[trigger] rs[k], s);
    lemma_free_run_unique(g, rs[k].0 as int, rs[k].1 as int, s, l, s);
}

/// Listed runs are pairwise disjoint and non-adjacent: between any two of
/// them lies at least one cluster that is not `Unused`.
pub proof fn lemma_regions_nonadjacent(rs: Seq<(usize, usize)>, g: Seq<ClusterState>)
    requires
        regions_match(rs, g),
    ensures
        forall|k1: int, k2: int|
            0 <= k1 < rs.len() && 0 <= k2 < rs.len() && k1 != k2 ==> (#[trigger] rs[k1]).0 + rs[k1].1
                < (#[trigger] rs[k2]).0 || rs[k2].0 + rs[k2].1 < rs[k1].0,
{
    assert forall|k1: int, k2: int|
        0 <= k1 < rs.len() && 0 <= k2 < rs.len() && k1 != k2 implies (#[trigger] rs[k1]).0
        + rs[k1].1 < (#[trigger] rs[k2]).0 || rs[k2].0 + rs[k2].1 < rs[k1].0 by {
        let (s1, l1) = (rs[k1].0 as int, rs[k1].1 as int);
        let (s2, l2) = (rs[k2].0 as int, rs[k2].1 as int);
        if s1 + l1 >= s2 && s2 + l2 >= s1 {
            // The closed extensions overlap or touch; rule every case out.
            if s1 <= s2 < s1 + l1 || s2 <= s1 < s2 + l2 {
                let i = if s1 <= s2 < s1 + l1 {
                    s2
                } else {
                    s1
                };
                lemma_free_run_unique(g, s1, l1, s2, l2, i);
            } else if s1 + l1 == s2 {
                // Run two starts right where run one ends: contradicts maximality.
                assert(g[s2] == ClusterState::Unused);
                assert(false);
            } else {
                assert(s2 + l2 == s1);
                assert(g[s1] == ClusterState::Unused);
                assert(false);
            }
        }
    }
}

/// Cache of the maximal free runs of the grid. `dirty` gates lazy rebuild:
/// the run list describes the grid only after `rebuild` and before the next
/// grid mutation.
#[derive(Clone, Debug)]
pub struct FreeSpaceCache {
    regions: Vec<(usize, usize)>,
    dirty: bool,
}

impl FreeSpaceCache {
    /// The listed runs, as (start, length) pairs.
    pub closed spec fn regions_view(&self) -> Seq<(usize, usize)> {
        self.regions@
    }

    /// Whether the cache needs rebuilding.
    pub closed spec fn spec_dirty(&self) -> bool {
        self.dirty
    }

    /// The run list is kept sorted by length descending, with ties in
    /// ascending order of start.
    pub open spec fn wf(&self) -> bool {
        &&& sorted_desc(self.regions_view())
        &&& eq_len_ascending(self.regions_view())
    }

    pub fn new() -> (r: Self)
        ensures
            r.spec_dirty(),
            r.regions_view() === Seq::<(usize, usize)>::empty(),
            r.wf(),
    {
        FreeSpaceCache { regions: Vec::new(), dirty: true }
    }

    /// Mark the cache as needing rebuild.
    pub fn invalidate(&mut self)
        ensures
            final(self).spec_dirty(),
            final(self).regions_view() == old(self).regions_view(),
            old(self).wf() ==> final(self).wf(),
    {
        self.dirty = true;
    }

    /// Report whether the cache is marked dirty.
    pub fn is_dirty(&self) -> (b: bool)
        ensures
            b == self.spec_dirty(),
    {
        self.dirty
    }

    /// Rebuild the run list from the cluster states: one left-to-right scan
    /// emitting the maximal `Unused` runs, then a sort by length descending.
    pub fn rebuild(&mut self, clusters: &Vec<ClusterState>)
        ensures
            !final(self).spec_dirty(),
            final(self).wf(),
            regions_match(final(self).regions_view(), clusters@),
    {
        self.regions = scan_free_runs(clusters);
        let ghost scanned = self.regions@;
        sort_runs_by_len_desc(&mut self.regions);
        proof {
            lemma_match_permuted(scanned, self.regions@, clusters@);
        }
        self.dirty = false;
    }

    /// Start of the first listed run of length at least `size`. With the
    /// list sorted by length descending this is a longest free run, so the
    /// allocator is worst-fit: it keeps large contiguous space available.
    pub fn find_region(&self, size: usize) -> (r: Option<usize>)
        requires
            self.wf(),
        ensures
            r == (if self.regions_view().len() > 0 && self.regions_view()[0].1 >= size {
                Some(self.regions_view()[0].0)
            } else {
                None::<usize>
            }),
            r is None ==> forall|k: int|
                0 <= k < self.regions_view().len() ==> (#[trigger] self.regions_view()[k]).1 < size,
            r is Some ==> forall|k: int|
                0 <= k < self.regions_view().len() ==> (#[trigger] self.regions_view()[k]).1
                    <= self.regions_view()[0].1,
            r is Some ==> forall|k: int|
                0 <= k < self.regions_view().len() && (#[trigger] self.regions_view()[k]).1
                    == self.regions_view()[0].1 ==> self.regions_view()[0].0
                    <= self.regions_view()[k].0,
    {
        let n = self.regions.len();
        let mut idx: usize = 0;
        while idx < n
            invariant
                idx <= n,
                n == self.regions@.len(),
                self.wf(),
                forall|k: int| 0 <= k < idx ==> (#[trigger] self.regions@[k]).1 < size,
            decreases n - idx,
        {
            if self.regions[idx].1 >= size {
                return Some(self.regions[idx].0);
            }
            idx += 1;
        }
        None
    }
}

/// When any free run of length at least `size` exists, a matching sorted run
/// list is non-empty and its head is a longest free run, so `find_region`
/// returns the start of a longest qualifying run; and it never returns a run
/// shorter than `size`.
pub proof fn lemma_find_region_worst_fit(
    rs: Seq<(usize, usize)>,
    g: Seq<ClusterState>,
    size: usize,
)
    requires
        regions_match(rs, g),
        sorted_desc(rs),
        exists|s: int, l: int| is_free_run(g, s, l) && l >= size,
    ensures
        rs.len() > 0,
        rs[0].1 >= size,
        is_free_run(g, rs[0].0 as int, rs[0].1 as int),
        forall|s: int, l: int| is_free_run(g, s, l) ==> l <= rs[0].1,
{
    let (s0, l0) = choose|s: int, l: int| is_free_run(g, s, l) && l >= size;
    lemma_free_run_listed(rs, g, s0, l0);
    assert forall|s: int, l: int| is_free_run(g, s, l) implies l <= rs[0].1 by {
        lemma_free_run_listed(rs, g, s, l);
    }
}

/// Scan the grid left to right and emit its maximal `Unused` runs in
/// ascending order of start.
fn scan_free_runs(clusters: &Vec<ClusterState>) -> (rs: Vec<(usize, usize)>)
    ensures
        regions_match(rs@, clusters@),
        starts_ascending(rs@),
{
    let n = clusters.len();
    let mut rs: Vec<(usize, usize)> = Vec::new();
    let mut run_start: usize = 0;
    let mut in_run: bool = false;
    let mut i: usize = 0;
    while i < n
        invariant
            i <= n,
            n == clusters@.len(),
            forall|k: int|
                0 <= k < rs@.len() ==> is_free_run(clusters@, (#[trigger] rs@[k]).0 as int,
                rs@[k].1 as int) && rs@[k].0 + rs@[k].1 < i + 1,
            forall|k1: int, k2: int|
                0 <= k1 < k2 < rs@.len() ==> (#[trigger] rs@[k1]).0 < (#[trigger] rs@[k2]).0,
            in_run ==> run_start < i && (forall|j: int|
                run_start <= j < i ==> clusters@[j] == ClusterState::Unused) && (run_start == 0
                || clusters@[run_start - 1] != ClusterState::Unused),
            in_run ==> forall|k: int|
                0 <= k < rs@.len() ==> (#[trigger] rs@[k]).0 + rs@[k].1 < run_start,
            !in_run ==> (i == 0 || clusters@[i - 1] != ClusterState::Unused),
            forall|j: int|
                0 <= j < i && clusters@[j] == ClusterState::Unused ==> (in_run && run_start <= j)
                    || exists|k: int| 0 <= k < rs@.len() && run_covers(#[trigger] rs@[k], j),
        decreases n - i,
    {
        if clusters[i] == ClusterState::Unused {
            if !in_run {
                run_start = i;
                in_run = true;
            }
        } else {
            if in_run {
                let ghost before = rs@;
                rs.push((run_start, i - run_start));
                in_run = false;
                proof {
                    assert forall|j: int|
                        0 <= j < i + 1 && clusters@[j] == ClusterState::Unused implies exists|k: int|
                        0 <= k < rs@.len() && run_covers(#[trigger] rs@[k], j) by {
                        if run_start <= j < i {
                            let k = rs@.len() - 1;
                            assert(rs@[k] == (run_start, (i - run_start) as usize));
                            assert(run_covers(rs@[k], j));
                        } else {
                            let k = choose|k: int|
                                0 <= k < before.len() && run_covers(#[trigger] before[k], j);
                            assert(rs@[k] == before[k]);
                            assert(run_covers(rs@[k], j));
                        }
                    }
                }
            }
        }
        i += 1;
    }
    if in_run {
        let ghost before = rs@;
        rs.push((run_start, n - run_start));
        proof {
            assert forall|j: int|
                0 <= j < n && clusters@[j] == ClusterState::Unused implies exists|k: int|
                0 <= k < rs@.len() && run_covers(#[trigger] rs@[k], j) by {
                if run_start <= j < n {
                    let k = rs@.len() - 1;
                    assert(rs@[k] == (run_start, (n - run_start) as usize));
                    assert(run_covers(rs@[k], j));
                } else {
                    let k = choose|k: int|
                        0 <= k < before.len() && run_covers(#[trigger] before[k], j);
                    assert(rs@[k] == before[k]);
                    assert(run_covers(rs@[k], j));
                }
            }
        }
    }
    rs
}

/// A run list that matches the grid and stands in the canonical order
/// (length descending, ties by ascending start) is uniquely determined by
/// the grid: `rebuild` computes a pure function of the cluster states.
pub proof fn lemma_run_list_canonical(
    rs1: Seq<(usize, usize)>,
    rs2: Seq<(usize, usize)>,
    g: Seq<ClusterState>,
)
    requires
        regions_match(rs1, g),
        sorted_desc(rs1),
        eq_len_ascending(rs1),
        regions_match(rs2, g),
        sorted_desc(rs2),
        eq_len_ascending(rs2),
    ensures
        rs1 == rs2,
{
    broadcast use vstd::seq_lib::group_to_multiset_ensures;

    lemma_count_unique(rs1, g);
    lemma_count_unique(rs2, g);
    assert forall|a: (usize, usize)| #[trigger] rs1.to_multiset().count(a)
        == rs2.to_multiset().count(a) by {
        if rs1.to_multiset().count(a) > 0 {
            assert(rs1.contains(a));
            let k = choose|k: int| 0 <= k < rs1.len() && rs1[k] == a;
            assert(is_free_run(g, (rs1[k]).0 as int, (rs1[k]).1 as int));
            lemma_free_run_listed(rs2, g, a.0 as int, a.1 as int);
            let k2 = choose|k2: int|
                0 <= k2 < rs2.len() && (#[trigger] rs2[k2]).0 == a.0 && rs2[k2].1 == a.1;
            assert(rs2[k2] == a);
            assert(rs2.contains(a));
            assert(rs2.to_multiset().count(a) > 0);
        }
        if rs2.to_multiset().count(a) > 0 {
            assert(rs2.contains(a));
            let k = choose|k: int| 0 <= k < rs2.len() && rs2[k] == a;
            assert(is_free_run(g, (rs2[k]).0 as int, (rs2[k]).1 as int));
            lemma_free_run_listed(rs1, g, a.0 as int, a.1 as int);
            let k1 = choose|k1: int|
                0 <= k1 < rs1.len() && (#[trigger] rs1[k1]).0 == a.0 && rs1[k1].1 == a.1;
            assert(rs1[k1] == a);
            assert(rs1.contains(a));
            assert(rs1.to_multiset().count(a) > 0);
        }
    }
    assert(rs1.to_multiset() =~= rs2.to_multiset());

    let le = |x: (usize, usize), y: (usize, usize)| run_le(x, y);
    assert(vstd::relations::total_ordering(le)) by {
        assert(vstd::relations::reflexive(le)) by {
            assert(forall|x: (usize, usize)| #[trigger] le(x, x));
        }
        assert(vstd::relations::antisymmetric(le)) by {
            assert forall|x: (usize, usize), y: (usize, usize)|
                #[trigger] le(x, y) && #[trigger] le(y, x) implies x == y by {
                assert(x.1 == y.1 && x.0 == y.0);
            }
        }
        assert(vstd::relations::transitive(le)) by {
            assert(forall|x: (usize, usize), y: (usize, usize), z: (usize, usize)|
                #[trigger] le(x, y) && #[trigger] le(y, z) ==> le(x, z));
        }
        assert(vstd::relations::strongly_connected(le)) by {
            assert(forall|x: (usize, usize), y: (usize, usize)| #[trigger] le(x, y) || #[trigger] le(
                y,
                x,
            ));
        }
    }
    assert(vstd::relations::sorted_by(rs1, le)) by {
        assert forall|i: int, j: int| 0 <= i < j < rs1.len() implies #[trigger] le(
            rs1[i],
            rs1[j],
        ) by {
            if rs1[i].1 == rs1[j].1 {
                assert(rs1[i].0 < rs1[j].0);
            }
        }
    }
    assert(vstd::relations::sorted_by(rs2, le)) by {
        assert forall|i: int, j: int| 0 <= i < j < rs2.len() implies #[trigger] le(
            rs2[i],
            rs2[j],
        ) by {
            if rs2[i].1 == rs2[j].1 {
                assert(rs2[i].0 < rs2[j].0);
            }
        }
    }
    vstd::seq_lib::lemma_sorted_unique(rs1, rs2, le);
    assert(rs1 =~= rs2);
}

/// `s[a]` is one of the first `j` entries of `orig`.
spec fn from_prefix(s: Seq<(usize, usize)>, orig: Seq<(usize, usize)>, j: int, a: int) -> bool {
    exists|b: int| 0 <= b < j && s[a] == #[trigger] orig[b]
}

/// Sort the run list by length descending (insertion sort), preserving the
/// multiset of entries. The sort is stable: runs of equal length keep the
/// ascending-start order the scan emitted.
fn sort_runs_by_len_desc(rs: &mut Vec<(usize, usize)>)
    requires
        starts_ascending(old(rs)@),
    ensures
        sorted_desc(final(rs)@),
        eq_len_ascending(final(rs)@),
        final(rs)@.to_multiset() == old(rs)@.to_multiset(),
{
    let ghost orig = rs@;
    let n = rs.len();
    if n == 0 {
        assert(final(rs)@.to_multiset() =~= old(rs)@.to_multiset());
        return ;
    }
    proof {
        assert forall|a: int| 0 <= a < 1 implies #[trigger] from_prefix(rs@, orig, 1, a) by {
            assert(rs@[0] == orig[0]);
        }
    }
    let mut j: usize = 1;
    while j < n
        invariant
            1 <= j <= n,
            n == rs@.len(),
            n == orig.len(),
            starts_ascending(orig),
            sorted_desc(rs@.subrange(0, j as int)),
            eq_len_ascending(rs@.subrange(0, j as int)),
            forall|q: int| j <= q < n ==> rs@[q] == orig[q],
            forall|a: int| 0 <= a < j ==> #[trigger] from_prefix(rs@, orig, j as int, a),
            rs@.to_multiset() == orig.to_multiset(),
        decreases n - j,
    {
        let x = rs[j];
        let mut p: usize = 0;
        while p < j && rs[p].1 >= x.1
            invariant
                p <= j < n,
                n == rs@.len(),
                x == rs@[j as int],
                forall|q: int| 0 <= q < p ==> (#[trigger] rs@[q]).1 >= x.1,
            decreases j - p,
        {
            p += 1;
        }
        let ghost pre = rs@;
        let y = rs.remove(j);
        rs.insert(p, y);
        proof {
            lemma_remove_insert_multiset(pre, j as int, p as int);
            let t = pre.remove(j as int);
            let u = t.insert(p as int, x);
            pre.remove_ensures(j as int);
            t.insert_ensures(p as int, x);
            assert(rs@ == u);
            // Value of each index of the rearranged prefix.
            assert forall|q: int| 0 <= q < j + 1 implies (#[trigger] u[q]) == (if q < p {
                pre[q]
            } else if q == p {
                x
            } else {
                pre[q - 1]
            }) by {
                if q < p {
                    assert(u[q] == t[q]);
                    assert(t[q] == pre[q]);
                } else if q > p {
                    assert(u[(q - 1) + 1] == t[q - 1]);
                    assert(t[q - 1] == pre[q - 1]);
                }
            }
            // The untouched tail keeps its scan order.
            assert forall|q: int| j + 1 <= q < n implies (#[trigger] u[q]) == pre[q] by {
                assert(u[(q - 1) + 1] == t[q - 1]);
                assert(t[q - 1] == pre[(q - 1) + 1]);
            }
            let ghost spre = pre.subrange(0, j as int);
            assert(forall|q: int| 0 <= q < j ==> (#[trigger] spre[q]) == pre[q]);
            assert(x == orig[j as int]);
            assert forall|a: int, b: int| 0 <= a <= b < j + 1 implies (#[trigger] rs@[a]).1 >= (
            #[trigger] rs@[b]).1 by {
                if a < b {
                    if b < p {
                        assert(spre[a].1 >= spre[b].1);
                    } else if b == p {
                        assert(rs@[a] == pre[a]);
                        assert(pre[a].1 >= x.1);
                    } else {
                        // b > p
                        if a < p {
                            assert(spre[a].1 >= spre[b - 1].1);
                        } else if a == p {
                            assert(p < j);
                            assert(pre[p as int].1 < x.1);
                            assert(spre[b - 1].1 <= spre[p as int].1);
                        } else {
                            assert(spre[a - 1].1 >= spre[b - 1].1);
                        }
                    }
                }
            }
            // Stability: an equal-length pair either comes whole from the
            // old prefix, whose order is kept, or pairs an old-prefix run
            // with the inserted one, which the scan emitted later.
            assert forall|a: int, b: int|
                0 <= a < b < j + 1 && (#[trigger] rs@[a]).1 == (#[trigger] rs@[b]).1 implies
            rs@[a].0 < rs@[b].0 by {
                if a == p {
                    // Everything after the insertion point is strictly
                    // shorter, so no equal-length run follows the new one.
                    assert(p < j);
                    assert(pre[p as int].1 < x.1);
                    assert(rs@[b] == pre[b - 1]);
                    assert(spre[b - 1].1 <= spre[p as int].1);
                    assert(false);
                } else if b == p {
                    // The new run was scanned after every old-prefix run.
                    assert(rs@[a] == pre[a]);
                    assert(from_prefix(pre, orig, j as int, a));
                    let c = choose|c: int| 0 <= c < j && pre[a] == #[trigger] orig[c];
                    assert(orig[c].0 < orig[j as int].0);
                } else {
                    let a2 = if a < p {
                        a
                    } else {
                        a - 1
                    };
                    let b2 = if b < p {
                        b
                    } else {
                        b - 1
                    };
                    assert(rs@[a] == pre[a2]);
                    assert(rs@[b] == pre[b2]);
                    assert(0 <= a2 < b2 < j);
                    assert(spre[a2].1 == spre[b2].1);
                    assert(spre[a2].0 < spre[b2].0);
                }
            }
            assert(sorted_desc(rs@.subrange(0, j as int + 1))) by {
                assert(forall|q: int|
                    0 <= q < j + 1 ==> (#[trigger] rs@.subrange(0, j as int + 1)[q]) == rs@[q]);
            }
            assert(eq_len_ascending(rs@.subrange(0, j as int + 1))) by {
                assert(forall|q: int|
                    0 <= q < j + 1 ==> (#[trigger] rs@.subrange(0, j as int + 1)[q]) == rs@[q]);
            }
            // Every prefix entry still stems from the first j+1 old entries.
            assert forall|a: int| 0 <= a < j + 1 implies #[trigger] from_prefix(
                rs@,
                orig,
                j as int + 1,
                a,
            ) by {
                if a == p {
                    assert(rs@[a] == orig[j as int]);
                } else {
                    let a2 = if a < p {
                        a
                    } else {
                        a - 1
                    };
                    assert(rs@[a] == pre[a2]);
                    assert(from_prefix(pre, orig, j as int, a2));
                    let c = choose|c: int| 0 <= c < j && pre[a2] == #[trigger] orig[c];
                    assert(rs@[a] == orig[c]);
                }
            }
        }
        j += 1;
    }
    assert(rs@.subrange(0, n as int) =~= rs@);
}

/// Removing an element and inserting it elsewhere keeps the multiset.
proof fn lemma_remove_insert_multiset(s: Seq<(usize, usize)>, j: int, p: int)
    requires
        0 <= j < s.len(),
        0 <= p <= s.len() - 1,
    ensures
        s.remove(j).insert(p, s[j]).to_multiset() == s.to_multiset(),
{
    broadcast use vstd::seq_lib::group_to_multiset_ensures;

    let x = s[j];
    let t = s.remove(j);
    let u = t.insert(p, x);
    assert(u.remove(p) =~= t);
    assert(u[p] == x);
    assert(u.remove(p).to_multiset() == u.to_multiset().remove(x));
    assert(s.remove(j).to_multiset() == s.to_multiset().remove(x));
    assert(u.to_multiset().remove(x) == s.to_multiset().remove(x));
    assert(u.contains(x)) by {
        assert(u[p] == x);
    }
    assert(u.to_multiset().count(x) > 0);
    assert(s.contains(x)) by {
        assert(s[j] == x);
    }
    assert(s.to_multiset().count(x) > 0);
    assert(u.to_multiset() =~= s.to_multiset()) by {
        assert(forall|a: (usize, usize)|
            a != x ==> u.to_multiset().count(a) == u.to_multiset().remove(x).count(a)
                && s.to_multiset().count(a) == s.to_multiset().remove(x).count(a));
        assert(u.to_multiset().count(x) == u.to_multiset().remove(x).count(x) + 1);
        assert(s.to_multiset().count(x) == s.to_multiset().remove(x).count(x) + 1);
    }
}

/// An element of one sequence is an element of any other with the same
/// multiset.
proof fn lemma_contains_transfer(s1: Seq<(usize, usize)>, s2: Seq<(usize, usize)>, x: (usize, usize))
    requires
        s1.to_multiset() == s2.to_multiset(),
        s1.contains(x),
    ensures
        s2.contains(x),
{
    broadcast use vstd::seq_lib::group_to_multiset_ensures;

    assert(s1.to_multiset().count(x) > 0);
    assert(s2.to_multiset().count(x) > 0);
}

/// `regions_match` carries over to any permutation of the run list.
proof fn lemma_match_permuted(
    rs1: Seq<(usize, usize)>,
    rs2: Seq<(usize, usize)>,
    g: Seq<ClusterState>,
)
    requires
        rs2.to_multiset() == rs1.to_multiset(),
    ensures
        regions_match(rs1, g) ==> regions_match(rs2, g),
{
    broadcast use vstd::seq_lib::group_to_multiset_ensures;

    if regions_match(rs1, g) {
        assert forall|k: int|
            0 <= k < rs2.len() implies is_free_run(g, (#[trigger] rs2[k]).0 as int,
        rs2[k].1 as int) by {
            assert(rs2.contains(rs2[k]));
            lemma_contains_transfer(rs2, rs1, rs2[k]);
            let k1 = choose|k1: int| 0 <= k1 < rs1.len() && rs1[k1] == rs2[k];
            assert(is_free_run(g, rs1[k1].0 as int, rs1[k1].1 as int));
        }
        assert forall|i: int|
            0 <= i < g.len() && g[i] == ClusterState::Unused implies exists|k: int|
            0 <= k < rs2.len() && run_covers(#[trigger] rs2[k], i) by {
            let k1 = choose|k1: int| 0 <= k1 < rs1.len() && run_covers(#[trigger] rs1[k1], i);
            assert(rs1.contains(rs1[k1]));
            lemma_contains_transfer(rs1, rs2, rs1[k1]);
            let k2 = choose|k2: int| 0 <= k2 < rs2.len() && rs2[k2] == rs1[k1];
            assert(run_covers(rs2[k2], i));
        }
        assert forall|k1: int, k2: int|
            0 <= k1 < rs2.len() && 0 <= k2 < rs2.len() && k1 != k2 implies (#[trigger] rs2[k1]).0
            != (#[trigger] rs2[k2]).0 by {
            if rs2[k1].0 == rs2[k2].0 {
                // Two listed maximal runs with one start are one run, so one
                // tuple would have to occur twice; the multiset rules it out.
                assert(rs2.contains(rs2[k1]));
                lemma_contains_transfer(rs2, rs1, rs2[k1]);
                assert(rs2.contains(rs2[k2]));
                lemma_contains_transfer(rs2, rs1, rs2[k2]);
                let j1 = choose|j: int| 0 <= j < rs1.len() && rs1[j] == rs2[k1];
                let j2 = choose|j: int| 0 <= j < rs1.len() && rs1[j] == rs2[k2];
                assert(is_free_run(g, rs1[j1].0 as int, rs1[j1].1 as int));
                assert(is_free_run(g, rs1[j2].0 as int, rs1[j2].1 as int));
                lemma_free_run_unique(
                    g,
                    rs1[j1].0 as int,
                    rs1[j1].1 as int,
                    rs1[j2].0 as int,
                    rs1[j2].1 as int,
                    rs1[j1].0 as int,
                );
                assert(rs1[j1] == rs1[j2]);
                assert(j1 == j2);
                assert(rs2[k1] == rs2[k2]);
                lemma_count_two(rs2, k1, k2);
                lemma_count_unique(rs1, g);
                assert(false);
            }
        }
    }
}

/// An element at two indices has multiset count at least two.
proof fn lemma_count_two(s: Seq<(usize, usize)>, k1: int, k2: int)
    requires
        0 <= k1 < s.len(),
        0 <= k2 < s.len(),
        k1 != k2,
        s[k1] == s[k2],
    ensures
        s.to_multiset().count(s[k1]) >= 2,
{
    broadcast use vstd::seq_lib::group_to_multiset_ensures;

    let t = s.remove(k1);
    assert(t.to_multiset() == s.to_multiset().remove(s[k1]));
    let k2b = if k2 < k1 {
        k2
    } else {
        k2 - 1
    };
    assert(t[k2b] == s[k2]);
    assert(t.contains(s[k1]));
    assert(t.to_multiset().count(s[k1]) > 0);
    assert(s.to_multiset().count(s[k1]) == t.to_multiset().count(s[k1]) + 1);
}

/// In a matching run list every tuple occurs at most once.
proof fn lemma_count_unique(rs: Seq<(usize, usize)>, g: Seq<ClusterState>)
    requires
        regions_match(rs, g),
    ensures
        forall|a: (usize, usize)| #[trigger] rs.to_multiset().count(a) <= 1,
{
    broadcast use vstd::seq_lib::group_to_multiset_ensures;

    assert forall|a: (usize, usize)| #[trigger] rs.to_multiset().count(a) <= 1 by {
        if rs.to_multiset().count(a) >= 2 {
            let k1 = choose|k: int| 0 <= k < rs.len() && rs[k] == a;
            let t = rs.remove(k1);
            assert(t.to_multiset() == rs.to_multiset().remove(a));
            assert(t.to_multiset().count(a) >= 1);
            assert(t.contains(a));
            let k2t = choose|k: int| 0 <= k < t.len() && t[k] == a;
            let k2 = if k2t < k1 {
                k2t
            } else {
                k2t + 1
            };
            assert(rs[k2] == a);
            assert(k1 != k2);
            assert(rs[k1].0 == rs[k2].0);
            assert(false);
        }
    }
}

} // verus!
