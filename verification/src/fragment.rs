//! A logical file made of cluster indices, with a fragmentation check:
//! a file is fragmented when its clusters are not contiguous.

use vstd::prelude::*;

verus! {

/// The indices are consecutive: each one is its predecessor plus one.
pub open spec fn contiguous(cs: Seq<usize>) -> bool {
    forall|i: int| 0 <= i < cs.len() - 1 ==> #[trigger] cs[i + 1] == cs[i] + 1
}

/// A logical file with multiple clusters, to simulate files of different
/// sizes during defragmentation.
#[derive(Clone, Debug)]
pub struct FileFragment {
    /// The cluster indices that belong to this file.
    pub clusters: Vec<usize>,
    /// The size of the file in clusters.
    pub size: usize,
    /// Whether this file is fragmented (clusters not contiguous).
    pub is_fragmented: bool,
}

impl FileFragment {
    /// Create a file fragment over the given cluster indices; its recorded
    /// size and fragmentation flag describe exactly those indices.
    pub fn new(clusters: Vec<usize>) -> (r: Self)
        ensures
            r.clusters@ == clusters@,
            r.size == clusters@.len(),
            r.is_fragmented == !contiguous(clusters@),
    {
        let size = clusters.len();
        let is_fragmented = Self::check_fragmentation(&clusters);
        FileFragment { clusters, size, is_fragmented }
    }

    /// A file of at most one cluster is never fragmented; a longer file is
    /// fragmented exactly when some neighbouring pair is not consecutive.
    pub fn check_fragmentation(clusters: &Vec<usize>) -> (r: bool)
        ensures
            r == !contiguous(clusters@),
    {
        let n = clusters.len();
        if n <= 1 {
            return false;
        }
        let mut i: usize = 0;
        while i + 1 < n
            invariant
                i < n,
                n == clusters@.len(),
                forall|j: int| 0 <= j < i ==> #[trigger] clusters@[j + 1] == clusters@[j] + 1,
            decreases n - i,
        {
            let a = clusters[i];
            // No index can follow usize::MAX, so such a pair is never
            // consecutive.
            if a == usize::MAX || clusters[i + 1] != a + 1 {
                proof {
                    assert(clusters@[i as int + 1] != clusters@[i as int] + 1);
                }
                return true;
            }
            i += 1;
        }
        false
    }

    /// The first cluster of this file.
    pub fn first_cluster(&self) -> (r: Option<usize>)
        ensures
            r == (if self.clusters@.len() > 0 {
                Some(self.clusters@[0])
            } else {
                None::<usize>
            }),
    {
        if self.clusters.len() > 0 {
            Some(self.clusters[0])
        } else {
            None
        }
    }

    /// The last cluster of this file.
    pub fn last_cluster(&self) -> (r: Option<usize>)
        ensures
            r == (if self.clusters@.len() > 0 {
                Some(self.clusters@[self.clusters@.len() - 1])
            } else {
                None::<usize>
            }),
    {
        let n = self.clusters.len();
        if n > 0 {
            Some(self.clusters[n - 1])
        } else {
            None
        }
    }
}

} // verus!
