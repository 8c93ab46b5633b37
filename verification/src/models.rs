//! Core data model: cluster states, simulation phases, statistics, and
//! spec-level counting over cluster sequences.

use vstd::prelude::*;
use vstd::multiset::Multiset;

verus! {

/// State of one cluster of the simulated disk grid.
#[derive(Clone, Copy, Debug, PartialEq, Eq, Structural)]
pub enum ClusterState {
    /// Already defragmented block.
    Used,
    /// Free block.
    Unused,
    /// Block awaiting defragmentation.
    Pending,
    /// Defective block, permanently excluded.
    Bad,
    /// Fixed system block, never relocated.
    Unmovable,
    /// Block currently being read.
    Reading,
    /// Block currently being written.
    Writing,
}

/// Top-level phase of the simulation state machine.
#[derive(Clone, Copy, Debug, PartialEq, Eq, Structural)]
pub enum DefragPhase {
    Initializing,
    Analyzing,
    Defragmenting,
    Finished,
}

/// Sub-state of the simulated file currently in flight.
#[derive(Clone, Copy, Debug, PartialEq, Eq, Structural)]
pub enum FileDefragPhase {
    /// The file is being read from its fragmented location.
    Reading,
    /// The file is being written to its new contiguous location.
    Writing,
    /// The file has been fully defragmented.
    Completed,
}

/// Monotonic counters of the defragmentation run. Times are milliseconds on
/// the caller's monotonic clock.
#[derive(Clone, Copy, Debug, PartialEq, Eq, Structural)]
pub struct DefragStats {
    /// Number of clusters to defragment, fixed at layout creation.
    pub total_to_defrag: usize,
    /// Number of clusters defragmented so far.
    pub clusters_defragged: usize,
    /// Clock value at layout creation, in milliseconds.
    pub start_time_ms: u64,
}

/// Number of occurrences of `c` in `s`.
pub open spec fn count_state(s: Seq<ClusterState>, c: ClusterState) -> nat
    decreases s.len(),
{
    if s.len() == 0 {
        0
    } else {
        count_state(s.drop_last(), c) + if s.last() == c {
            1nat
        } else {
            0nat
        }
    }
}

pub proof fn lemma_count_le_len(s: Seq<ClusterState>, c: ClusterState)
    ensures
        count_state(s, c) <= s.len(),
    decreases s.len(),
{
    if s.len() > 0 {
        lemma_count_le_len(s.drop_last(), c);
    }
}

pub proof fn lemma_count_pos(s: Seq<ClusterState>, i: int, c: ClusterState)
    requires
        0 <= i < s.len(),
        s[i] == c,
    ensures
        count_state(s, c) >= 1,
    decreases s.len(),
{
    if i == s.len() - 1 {
    } else {
        lemma_count_pos(s.drop_last(), i, c);
    }
}

pub proof fn lemma_count_push(s: Seq<ClusterState>, v: ClusterState, c: ClusterState)
    ensures
        count_state(s.push(v), c) == count_state(s, c) + if v == c {
            1nat
        } else {
            0nat
        },
{
    assert(s.push(v).drop_last() =~= s);
}

pub proof fn lemma_count_concat(a: Seq<ClusterState>, b: Seq<ClusterState>, c: ClusterState)
    ensures
        count_state(a + b, c) == count_state(a, c) + count_state(b, c),
    decreases b.len(),
{
    if b.len() == 0 {
        assert(a + b =~= a);
    } else {
        lemma_count_concat(a, b.drop_last(), c);
        assert((a + b).drop_last() =~= a + b.drop_last());
        assert((a + b).last() == b.last());
    }
}

/// A prefix never counts more than the whole sequence.
pub proof fn lemma_count_prefix_le(s: Seq<ClusterState>, k: int, c: ClusterState)
    requires
        0 <= k <= s.len(),
    ensures
        count_state(s.subrange(0, k), c) <= count_state(s, c),
{
    assert(s =~= s.subrange(0, k) + s.subrange(k, s.len() as int));
    lemma_count_concat(s.subrange(0, k), s.subrange(k, s.len() as int), c);
}

/// Inserting one element raises the count of its own state by one and
/// leaves the others alone.
pub proof fn lemma_count_insert(s: Seq<ClusterState>, p: int, v: ClusterState, c: ClusterState)
    requires
        0 <= p <= s.len(),
    ensures
        count_state(s.insert(p, v), c) == count_state(s, c) + if v == c {
            1nat
        } else {
            0nat
        },
{
    let a = s.subrange(0, p);
    let b = s.subrange(p, s.len() as int);
    assert(s.insert(p, v) =~= a.push(v) + b);
    assert(s =~= a + b);
    lemma_count_concat(a.push(v), b, c);
    lemma_count_concat(a, b, c);
    lemma_count_push(a, v, c);
}

/// The count of a state is its multiset multiplicity, so any permutation
/// keeps every count.
pub proof fn lemma_count_eq_multiset(s: Seq<ClusterState>, c: ClusterState)
    ensures
        count_state(s, c) == s.to_multiset().count(c),
    decreases s.len(),
{
    broadcast use vstd::seq_lib::group_to_multiset_ensures;

    if s.len() == 0 {
        assert(s.to_multiset() =~= Multiset::<ClusterState>::empty());
    } else {
        lemma_count_eq_multiset(s.drop_last(), c);
        assert(s =~= s.drop_last().push(s.last()));
        assert(s.drop_last().push(s.last()).to_multiset() =~= s.drop_last().to_multiset().insert(
            s.last(),
        ));
    }
}

pub proof fn lemma_count_update(s: Seq<ClusterState>, i: int, v: ClusterState, c: ClusterState)
    requires
        0 <= i < s.len(),
    ensures
        count_state(s.update(i, v), c) == count_state(s, c) + (if v == c {
            1int
        } else {
            0int
        }) - (if s[i] == c {
            1int
        } else {
            0int
        }),
    decreases s.len(),
{
    if i == s.len() - 1 {
        assert(s.update(i, v).drop_last() =~= s.drop_last());
    } else {
        assert(s.update(i, v).drop_last() =~= s.drop_last().update(i, v));
        lemma_count_update(s.drop_last(), i, v, c);
    }
}

} // verus!
