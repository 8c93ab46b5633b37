//! The simulation engine: grid layout generation, the tick-driven phase
//! state machine, the derived caches, and the statistics counters.
//!
//! All pacing is expressed over two clocks the caller supplies: a tick
//! counter advanced by calling `update`, and a monotonic clock in
//! milliseconds (`now_ms`) that schedules in-flight operation completions.

use vstd::prelude::*;
use crate::models::{ClusterState, DefragPhase, DefragStats, FileDefragPhase, count_state,
    lemma_count_le_len, lemma_count_update, lemma_count_push, lemma_count_insert,
    lemma_count_prefix_le, lemma_count_eq_multiset};
use crate::free_space::{FreeSpaceCache, regions_match, is_free_run};
use crate::drive::{DiskDrive, DiskDriveCollection, spec_drive_by_letter, spec_drive_c,
    get_drive_by_letter, drive_c};
use crate::dos_files::DosFileProvider;
use crate::rng::{shuffle_vec, gen_range_u64, choose_value};

verus! {

/// Tick interval of the outer loop, in milliseconds.
pub const DEFAULT_TICK_RATE_MS: u64 = 80;

/// Ticks spent in the `Initializing` phase.
pub const INIT_DURATION_TICKS: u64 = 20;

/// Ticks spent in the `Finished` phase before the engine signals stop.
pub const FINISH_WAIT_TICKS: u64 = 50;

/// Default disk fill, in thousandths of the grid.
pub const DEFAULT_FILL_PERMILLE: u32 = 650;

/// Share of bad blocks, in thousandths of the grid.
pub const BAD_BLOCK_PERMILLE: u32 = 20;

/// Audio cues emitted by one `update` call; the caller plays them.
#[derive(Clone, Copy, Debug, PartialEq, Eq, Structural)]
pub struct UpdateCues {
    pub play_seek: bool,
    pub play_read: bool,
    pub play_write: bool,
}

/// No cue at all.
pub open spec fn no_cues() -> UpdateCues {
    UpdateCues { play_seek: false, play_read: false, play_write: false }
}

fn quiet_cues() -> (r: UpdateCues)
    ensures
        r == no_cues(),
{
    UpdateCues { play_seek: false, play_read: false, play_write: false }
}

/// What the engine is doing, for display; `status_text` renders it.
#[derive(Clone, Copy, Debug, PartialEq, Eq, Structural)]
pub enum StatusKind {
    /// The start-up phase is running.
    Initializing,
    /// The analysis sweep is running.
    Analyzing,
    /// Defragmentation is running, between operations.
    Defragmenting,
    /// The run is complete.
    Complete,
    /// The current file is being read.
    ReadingFile,
    /// The current file is being written.
    WritingFile,
    /// The current file is being finished.
    FinishingFile,
    /// The engine is looking for the next file.
    SearchingNext,
    /// An operation is in progress and its completion has not elapsed.
    Waiting,
}

/// The in-flight sub-states that still hold one undefragmented cluster.
pub open spec fn inflight_charge(p: Option<FileDefragPhase>) -> nat {
    match p {
        Some(FileDefragPhase::Reading) => 1,
        Some(FileDefragPhase::Writing) => 1,
        _ => 0,
    }
}

/// `ps` lists exactly the indices of `Pending` clusters of `g`, in
/// strictly ascending order (so each index appears once and the list's
/// length is the number of `Pending` clusters).
pub open spec fn pending_matches(ps: Seq<usize>, g: Seq<ClusterState>) -> bool {
    &&& (forall|k: int|
        0 <= k < ps.len() ==> (#[trigger] ps[k]) < g.len() && g[ps[k] as int]
            == ClusterState::Pending)
    &&& (forall|i: int|
        0 <= i < g.len() && g[i] == ClusterState::Pending ==> ps.contains(i as usize))
    &&& (forall|k1: int, k2: int|
        0 <= k1 < k2 < ps.len() ==> (#[trigger] ps[k1]) < (#[trigger] ps[k2]))
}

/// A sequence with no occurrence of `c` counts zero, and conversely.
pub proof fn lemma_count_zero(s: Seq<ClusterState>, c: ClusterState)
    ensures
        (count_state(s, c) == 0) <==> (forall|i: int| 0 <= i < s.len() ==> s[i] != c),
    decreases s.len(),
{
    if s.len() > 0 {
        lemma_count_zero(s.drop_last(), c);
        assert(forall|i: int| 0 <= i < s.len() - 1 ==> s.drop_last()[i] == s[i]);
    }
}

/// Count the clusters of `v` in state `c`.
pub fn count_clusters_of(v: &Vec<ClusterState>, c: ClusterState) -> (r: usize)
    ensures
        r == count_state(v@, c),
{
    let n = v.len();
    let mut cnt: usize = 0;
    let mut i: usize = 0;
    while i < n
        invariant
            i <= n,
            n == v@.len(),
            cnt == count_state(v@.subrange(0, i as int), c),
            cnt <= i,
        decreases n - i,
    {
        proof {
            assert(v@.subrange(0, i + 1).drop_last() =~= v@.subrange(0, i as int));
            assert(v@.subrange(0, i + 1).last() == v@[i as int]);
        }
        if v[i] == c {
            cnt += 1;
        }
        i += 1;
    }
    proof {
        assert(v@.subrange(0, n as int) =~= v@);
    }
    cnt
}

/// List the indices of the `Pending` clusters of `v`, in ascending order.
fn compute_pending_indices(v: &Vec<ClusterState>) -> (r: Vec<usize>)
    ensures
        pending_matches(r@, v@),
{
    let n = v.len();
    let mut r: Vec<usize> = Vec::new();
    let mut i: usize = 0;
    while i < n
        invariant
            i <= n,
            n == v@.len(),
            forall|k: int|
                0 <= k < r@.len() ==> (#[trigger] r@[k]) < i && v@[r@[k] as int]
                    == ClusterState::Pending,
            forall|j: int| 0 <= j < i && v@[j] == ClusterState::Pending ==> r@.contains(j as usize),
            forall|k1: int, k2: int|
                0 <= k1 < k2 < r@.len() ==> (#[trigger] r@[k1]) < (#[trigger] r@[k2]),
        decreases n - i,
    {
        if v[i] == ClusterState::Pending {
            let ghost before = r@;
            r.push(i);
            proof {
                assert(r@[r@.len() - 1] == i);
                assert forall|j: int|
                    0 <= j < i + 1 && v@[j] == ClusterState::Pending implies r@.contains(
                    j as usize,
                ) by {
                    if j < i {
                        let k = choose|k: int| 0 <= k < before.len() && before[k] == j as usize;
                        assert(r@[k] == j as usize);
                    } else {
                        assert(r@[r@.len() - 1] == j as usize);
                    }
                }
                assert forall|k1: int, k2: int|
                    0 <= k1 < k2 < r@.len() implies (#[trigger] r@[k1]) < (#[trigger] r@[k2]) by {
                    if k2 == r@.len() - 1 {
                        assert(r@[k1] == before[k1]);
                        assert(before[k1] < i);
                    } else {
                        assert(r@[k1] == before[k1]);
                        assert(r@[k2] == before[k2]);
                    }
                }
            }
        }
        i += 1;
    }
    r
}

/// Generate a randomized initial layout for a `width` by `height` grid with
/// the given fill, and report how many clusters there are to defragment:
/// the `Pending` count plus the two seed operations.
pub fn generate_layout(width: usize, height: usize, fill_permille: u32) -> (r: (
    Vec<ClusterState>,
    usize,
))
    requires
        width * height <= usize::MAX / 1000,
        fill_permille <= 1000,
    ensures
        r.0@.len() == width * height,
        r.0@.len() > 0 ==> r.0@[0] == ClusterState::Unmovable,
        r.0@.len() > 0 ==> count_state(r.0@, ClusterState::Unmovable) == 1,
        count_state(r.0@, ClusterState::Bad) <= r.0@.len() * BAD_BLOCK_PERMILLE / 1000,
        count_state(r.0@, ClusterState::Pending) <= (if r.0@.len() * fill_permille / 1000 >= 2 {
            r.0@.len() * fill_permille / 1000 - 2
        } else {
            0
        }),
        count_state(r.0@, ClusterState::Writing) <= 1,
        count_state(r.0@, ClusterState::Reading) <= 1,
        ((if r.0@.len() * fill_permille / 1000 >= 2 {
            r.0@.len() * fill_permille / 1000
        } else {
            2
        }) + r.0@.len() * BAD_BLOCK_PERMILLE / 1000 <= r.0@.len()) ==> count_state(
            r.0@,
            ClusterState::Pending,
        ) + count_state(r.0@, ClusterState::Writing) + count_state(r.0@, ClusterState::Reading)
            >= (if r.0@.len() * fill_permille / 1000 >= 2 {
            r.0@.len() * fill_permille / 1000
        } else {
            2
        }) - 1,
        r.1 == count_state(r.0@, ClusterState::Pending) + 2,
        r.1 <= r.0@.len() + 2,
{
    let total = width * height;
    proof {
        assert(total * fill_permille <= total * 1000) by (nonlinear_arith)
            requires
                fill_permille <= 1000,
                total >= 0,
        ;
        assert(total * 20 <= total * 1000) by (nonlinear_arith)
            requires
                total >= 0,
        ;
        assert(total * 1000 <= usize::MAX);
    }
    let num_pending = total * (fill_permille as usize) / 1000;
    let num_bad = total * (BAD_BLOCK_PERMILLE as usize) / 1000;
    proof {
        assert(num_bad + num_bad <= total) by (nonlinear_arith)
            requires
                num_bad == total * 20 / 1000,
                total >= 0,
        ;
    }

    let mut v: Vec<ClusterState> = Vec::new();
    let base_pending = if num_pending >= 2 {
        num_pending - 2
    } else {
        0
    };
    while v.len() < base_pending
        invariant
            v@.len() <= base_pending,
            count_state(v@, ClusterState::Pending) == v@.len(),
            count_state(v@, ClusterState::Bad) == 0,
            count_state(v@, ClusterState::Unmovable) == 0,
            count_state(v@, ClusterState::Writing) == 0,
            count_state(v@, ClusterState::Reading) == 0,
        decreases base_pending - v@.len(),
    {
        proof {
            lemma_count_push(v@, ClusterState::Pending, ClusterState::Pending);
            lemma_count_push(v@, ClusterState::Pending, ClusterState::Bad);
            lemma_count_push(v@, ClusterState::Pending, ClusterState::Unmovable);
            lemma_count_push(v@, ClusterState::Pending, ClusterState::Writing);
            lemma_count_push(v@, ClusterState::Pending, ClusterState::Reading);
        }
        v.push(ClusterState::Pending);
    }
    proof {
        lemma_count_push(v@, ClusterState::Writing, ClusterState::Pending);
        lemma_count_push(v@, ClusterState::Writing, ClusterState::Bad);
        lemma_count_push(v@, ClusterState::Writing, ClusterState::Unmovable);
        lemma_count_push(v@, ClusterState::Writing, ClusterState::Writing);
        lemma_count_push(v@, ClusterState::Writing, ClusterState::Reading);
    }
    v.push(ClusterState::Writing);
    proof {
        lemma_count_push(v@, ClusterState::Reading, ClusterState::Pending);
        lemma_count_push(v@, ClusterState::Reading, ClusterState::Bad);
        lemma_count_push(v@, ClusterState::Reading, ClusterState::Unmovable);
        lemma_count_push(v@, ClusterState::Reading, ClusterState::Writing);
        lemma_count_push(v@, ClusterState::Reading, ClusterState::Reading);
    }
    v.push(ClusterState::Reading);
    let target = total - num_bad;
    while v.len() < target
        invariant
            v@.len() <= base_pending + 2 || v@.len() <= target,
            count_state(v@, ClusterState::Pending) == base_pending,
            count_state(v@, ClusterState::Bad) == 0,
            count_state(v@, ClusterState::Unmovable) == 0,
            count_state(v@, ClusterState::Writing) == 1,
            count_state(v@, ClusterState::Reading) == 1,
        decreases target - v@.len(),
    {
        proof {
            lemma_count_push(v@, ClusterState::Unused, ClusterState::Pending);
            lemma_count_push(v@, ClusterState::Unused, ClusterState::Bad);
            lemma_count_push(v@, ClusterState::Unused, ClusterState::Unmovable);
            lemma_count_push(v@, ClusterState::Unused, ClusterState::Writing);
            lemma_count_push(v@, ClusterState::Unused, ClusterState::Reading);
        }
        v.push(ClusterState::Unused);
    }
    assert(v@.len() >= target);
    proof {
        // When the seeded entries fit before the bad-block share, the fill
        // loop stops exactly at its target, so nothing is truncated later.
        if base_pending + 2 <= target {
            assert(v@.len() == target);
        }
    }
    let ghost before_shuffle = v@;
    shuffle_vec(&mut v);
    proof {
        lemma_count_eq_multiset(before_shuffle, ClusterState::Pending);
        lemma_count_eq_multiset(v@, ClusterState::Pending);
        lemma_count_eq_multiset(before_shuffle, ClusterState::Bad);
        lemma_count_eq_multiset(v@, ClusterState::Bad);
        lemma_count_eq_multiset(before_shuffle, ClusterState::Unmovable);
        lemma_count_eq_multiset(v@, ClusterState::Unmovable);
        lemma_count_eq_multiset(before_shuffle, ClusterState::Writing);
        lemma_count_eq_multiset(v@, ClusterState::Writing);
        lemma_count_eq_multiset(before_shuffle, ClusterState::Reading);
        lemma_count_eq_multiset(v@, ClusterState::Reading);
    }

    let base_len = v.len();
    let mut positions: Vec<usize> = Vec::new();
    let mut i: usize = 0;
    while i < base_len
        invariant
            positions@.len() == i,
            i <= base_len,
        decreases base_len - i,
    {
        positions.push(i);
        i += 1;
    }
    shuffle_vec(&mut positions);

    let take = if num_bad < positions.len() {
        num_bad
    } else {
        positions.len()
    };
    let mut k: usize = 0;
    while k < take
        invariant
            k <= take,
            take <= positions@.len(),
            v@.len() == base_len + k,
            base_len + take <= usize::MAX,
            count_state(v@, ClusterState::Pending) == base_pending,
            count_state(v@, ClusterState::Bad) == k,
            count_state(v@, ClusterState::Unmovable) == 0,
            count_state(v@, ClusterState::Writing) == 1,
            count_state(v@, ClusterState::Reading) == 1,
        decreases take - k,
    {
        let p = positions[k];
        let cap = v.len();
        let at = if p < cap {
            p
        } else {
            cap
        };
        proof {
            lemma_count_insert(v@, at as int, ClusterState::Bad, ClusterState::Pending);
            lemma_count_insert(v@, at as int, ClusterState::Bad, ClusterState::Bad);
            lemma_count_insert(v@, at as int, ClusterState::Bad, ClusterState::Unmovable);
            lemma_count_insert(v@, at as int, ClusterState::Bad, ClusterState::Writing);
            lemma_count_insert(v@, at as int, ClusterState::Bad, ClusterState::Reading);
        }
        v.insert(at, ClusterState::Bad);
        k += 1;
    }

    proof {
        // The fill loop reached at least `total - num_bad` entries and at
        // least `num_bad` positions were available, so the list is long
        // enough to truncate to exactly `total`.
        assert(base_len >= target);
        assert(target >= num_bad);
        assert(take == num_bad);
        assert(v@.len() >= total);
        lemma_count_prefix_le(v@, total as int, ClusterState::Pending);
        lemma_count_prefix_le(v@, total as int, ClusterState::Bad);
        lemma_count_prefix_le(v@, total as int, ClusterState::Unmovable);
        lemma_count_prefix_le(v@, total as int, ClusterState::Writing);
        lemma_count_prefix_le(v@, total as int, ClusterState::Reading);
        // When the seeded entries fit before the bad-block share, the list
        // is exactly `total` long and truncation drops nothing.
        if base_pending + 2 <= target {
            assert(base_len == target);
            assert(v@.len() == total);
            assert(v@.subrange(0, total as int) =~= v@);
        }
    }
    v.truncate(total);
    assert(v@.len() == total);
    if total > 0 {
        proof {
            if v@[0] == ClusterState::Unmovable {
                crate::models::lemma_count_pos(v@, 0, ClusterState::Unmovable);
            }
            lemma_count_update(v@, 0, ClusterState::Unmovable, ClusterState::Pending);
            lemma_count_update(v@, 0, ClusterState::Unmovable, ClusterState::Bad);
            lemma_count_update(v@, 0, ClusterState::Unmovable, ClusterState::Unmovable);
            lemma_count_update(v@, 0, ClusterState::Unmovable, ClusterState::Writing);
            lemma_count_update(v@, 0, ClusterState::Unmovable, ClusterState::Reading);
        }
        v[0] = ClusterState::Unmovable;
    }
    let pending_count = count_clusters_of(&v, ClusterState::Pending);
    proof {
        lemma_count_le_len(v@, ClusterState::Pending);
    }
    (v, pending_count + 2)
}

/// Uppercase the four catalogue letters; leave any other letter alone.
pub open spec fn spec_upper_letter(c: char) -> char {
    if c == 'c' {
        'C'
    } else if c == 'd' {
        'D'
    } else if c == 'e' {
        'E'
    } else if c == 'f' {
        'F'
    } else {
        c
    }
}

/// The drive selected by `letter`: the catalogue entry for its uppercase
/// form, or drive C as the silent fallback.
pub open spec fn spec_selected_drive(letter: char) -> crate::drive::DriveConfig {
    match spec_drive_by_letter(spec_upper_letter(letter)) {
        Some(c) => c,
        None => spec_drive_c(),
    }
}

/// The whole engine state: grid, caches, statistics, phase machine and the
/// drive profile that paces operations.
pub struct App {
    /// False once the engine has signalled stop.
    pub running: bool,
    /// True while paused; `update` is not to be called then.
    pub paused: bool,
    /// Tick interval the caller should use, in milliseconds.
    pub tick_rate_ms: u64,
    pub width: usize,
    pub height: usize,
    /// The cluster grid, row-major.
    pub clusters: Vec<ClusterState>,
    pub stats: DefragStats,
    pub phase: DefragPhase,
    /// Ticks since the current phase was entered.
    pub animation_step: u64,
    /// Cluster currently being read, if any.
    pub read_pos: Option<usize>,
    /// Cluster currently being written, if any.
    pub write_pos: Option<usize>,
    /// Sub-state of the in-flight file, if one is in flight.
    pub current_file_read_progress: Option<FileDefragPhase>,
    /// Name of the in-flight file, if one is in flight.
    pub current_filename: Option<String>,
    /// Clock value at which the scheduled operation completes.
    pub current_op_end_time: Option<u64>,
    /// What the engine is doing, for display.
    pub status: StatusKind,
    pub file_provider: DosFileProvider,
    pub current_drive: DiskDrive,
    pub drive_collection: DiskDriveCollection,
    pub free_space_cache: FreeSpaceCache,
    /// In demo mode the run restarts by itself after finishing.
    pub demo_mode: bool,
    pub pending_indices_cache: Vec<usize>,
    pub pending_cache_dirty: bool,
    /// The fill the layout was generated with, reused on restart.
    pub fill_permille: u32,
}

impl App {
    /// Well-formedness: the grid has its fixed size, the statistics bound
    /// holds, cursors are in range, and each clean cache describes the grid.
    pub open spec fn wf(&self) -> bool {
        &&& self.width * self.height <= usize::MAX / 1000
        &&& self.clusters@.len() == self.width * self.height
        &&& self.fill_permille <= 1000
        &&& self.stats.clusters_defragged + count_state(self.clusters@, ClusterState::Pending)
            + inflight_charge(self.current_file_read_progress) <= self.stats.total_to_defrag
        &&& self.stats.total_to_defrag <= self.clusters@.len() + 2
        &&& (match self.read_pos {
            Some(i) => i < self.clusters@.len(),
            None => true,
        })
        &&& (match self.write_pos {
            Some(i) => i < self.clusters@.len(),
            None => true,
        })
        &&& (!self.pending_cache_dirty ==> pending_matches(
            self.pending_indices_cache@,
            self.clusters@,
        ))
        &&& (!self.free_space_cache.spec_dirty() ==> regions_match(
            self.free_space_cache.regions_view(),
            self.clusters@,
        ))
        &&& self.free_space_cache.wf()
        &&& self.drive_collection.wf()
        &&& self.current_drive.wf()
        &&& (self.phase == DefragPhase::Analyzing ==> self.animation_step <= (
        self.clusters@.len() as u64) / 5 + 11)
    }

    /// Create the engine: generate the layout, select the drive by letter
    /// (drive C when the letter is unknown), and start in `Initializing`
    /// with both caches dirty.
    pub fn new(width: usize, height: usize, fill_permille: u32, drive_letter: char, now_ms: u64)
        -> (r: App)
        requires
            width * height <= usize::MAX / 1000,
            fill_permille <= 1000,
        ensures
            r.wf(),
            r.width == width && r.height == height,
            r.clusters@.len() == width * height,
            r.clusters@.len() > 0 ==> r.clusters@[0] == ClusterState::Unmovable,
            r.clusters@.len() > 0 ==> count_state(r.clusters@, ClusterState::Unmovable) == 1,
            count_state(r.clusters@, ClusterState::Bad) <= r.clusters@.len() * BAD_BLOCK_PERMILLE
                / 1000,
            count_state(r.clusters@, ClusterState::Pending) <= (if r.clusters@.len()
                * fill_permille / 1000 >= 2 {
                r.clusters@.len() * fill_permille / 1000 - 2
            } else {
                0
            }),
            count_state(r.clusters@, ClusterState::Writing) <= 1,
            count_state(r.clusters@, ClusterState::Reading) <= 1,
            ((if r.clusters@.len() * fill_permille / 1000 >= 2 {
                r.clusters@.len() * fill_permille / 1000
            } else {
                2
            }) + r.clusters@.len() * BAD_BLOCK_PERMILLE / 1000 <= r.clusters@.len())
                ==> count_state(r.clusters@, ClusterState::Pending) + count_state(
                r.clusters@,
                ClusterState::Writing,
            ) + count_state(r.clusters@, ClusterState::Reading) >= (if r.clusters@.len()
                * fill_permille / 1000 >= 2 {
                r.clusters@.len() * fill_permille / 1000
            } else {
                2
            }) - 1,
            r.stats.total_to_defrag == count_state(r.clusters@, ClusterState::Pending) + 2,
            r.stats.clusters_defragged == 0,
            r.stats.start_time_ms == now_ms,
            r.phase == DefragPhase::Initializing,
            r.running && !r.paused && !r.demo_mode,
            r.animation_step == 0,
            r.read_pos is None && r.write_pos is None,
            r.current_file_read_progress is None,
            r.current_filename is None,
            r.current_op_end_time is None,
            r.pending_cache_dirty,
            r.free_space_cache.spec_dirty(),
            r.current_drive.config == spec_selected_drive(drive_letter),
            r.fill_permille == fill_permille,
            r.tick_rate_ms == DEFAULT_TICK_RATE_MS,
    {
        let (clusters, total_to_defrag) = generate_layout(width, height, fill_permille);
        let up: char = if drive_letter == 'c' {
            'C'
        } else if drive_letter == 'd' {
            'D'
        } else if drive_letter == 'e' {
            'E'
        } else if drive_letter == 'f' {
            'F'
        } else {
            drive_letter
        };
        let cfg = match get_drive_by_letter(up) {
            Some(c) => c,
            None => drive_c(),
        };
        let current_drive = DiskDrive::from_config(cfg);
        let drive_collection = DiskDriveCollection::new();
        let r = App {
            running: true,
            paused: false,
            tick_rate_ms: DEFAULT_TICK_RATE_MS,
            width,
            height,
            clusters,
            stats: DefragStats { total_to_defrag, clusters_defragged: 0, start_time_ms: now_ms },
            phase: DefragPhase::Initializing,
            animation_step: 0,
            read_pos: None,
            write_pos: None,
            current_file_read_progress: None,
            current_filename: None,
            current_op_end_time: None,
            status: StatusKind::Initializing,
            file_provider: DosFileProvider::new(),
            current_drive,
            drive_collection,
            free_space_cache: FreeSpaceCache::new(),
            demo_mode: false,
            pending_indices_cache: Vec::new(),
            pending_cache_dirty: true,
            fill_permille,
        };
        proof {
            lemma_count_le_len(r.clusters@, ClusterState::Pending);
        }
        r
    }

    /// Regenerate the layout with the same parameters and fresh randomness,
    /// reset the statistics and phase machine, clear the cursors and the
    /// in-flight file, and mark both caches dirty.
    pub fn restart(&mut self, now_ms: u64)
        requires
            old(self).wf(),
        ensures
            final(self).wf(),
            final(self).width == old(self).width && final(self).height == old(self).height,
            final(self).clusters@.len() == old(self).clusters@.len(),
            final(self).clusters@.len() > 0 ==> final(self).clusters@[0] == ClusterState::Unmovable,
            final(self).clusters@.len() > 0 ==> count_state(
                final(self).clusters@,
                ClusterState::Unmovable,
            ) == 1,
            count_state(final(self).clusters@, ClusterState::Bad) <= final(self).clusters@.len()
                * BAD_BLOCK_PERMILLE / 1000,
            count_state(final(self).clusters@, ClusterState::Pending) <= (if final(self).clusters@.len() * old(self).fill_permille / 1000 >= 2 {
                final(self).clusters@.len() * old(self).fill_permille / 1000 - 2
            } else {
                0
            }),
            count_state(final(self).clusters@, ClusterState::Writing) <= 1,
            count_state(final(self).clusters@, ClusterState::Reading) <= 1,
            ((if final(self).clusters@.len() * old(self).fill_permille / 1000 >= 2 {
                final(self).clusters@.len() * old(self).fill_permille / 1000
            } else {
                2
            }) + final(self).clusters@.len() * BAD_BLOCK_PERMILLE / 1000 <= final(self).clusters@.len()) ==> count_state(final(self).clusters@, ClusterState::Pending)
                + count_state(final(self).clusters@, ClusterState::Writing) + count_state(
                final(self).clusters@,
                ClusterState::Reading,
            ) >= (if final(self).clusters@.len() * old(self).fill_permille / 1000 >= 2 {
                final(self).clusters@.len() * old(self).fill_permille / 1000
            } else {
                2
            }) - 1,
            final(self).stats.total_to_defrag == count_state(
                final(self).clusters@,
                ClusterState::Pending,
            ) + 2,
            final(self).stats.clusters_defragged == 0,
            final(self).stats.start_time_ms == now_ms,
            final(self).phase == DefragPhase::Initializing,
            final(self).animation_step == 0,
            final(self).read_pos is None && final(self).write_pos is None,
            final(self).current_file_read_progress is None,
            final(self).current_filename is None,
            final(self).current_op_end_time is None,
            final(self).pending_cache_dirty,
            final(self).free_space_cache.spec_dirty(),
            !final(self).paused,
            final(self).running == old(self).running,
            final(self).demo_mode == old(self).demo_mode,
            final(self).current_drive == old(self).current_drive,
            final(self).fill_permille == old(self).fill_permille,
    {
        let (clusters, total_to_defrag) = generate_layout(
            self.width,
            self.height,
            self.fill_permille,
        );
        self.clusters = clusters;
        self.stats = DefragStats { total_to_defrag, clusters_defragged: 0, start_time_ms: now_ms };
        self.phase = DefragPhase::Initializing;
        self.animation_step = 0;
        self.read_pos = None;
        self.write_pos = None;
        self.current_file_read_progress = None;
        self.current_filename = None;
        self.current_op_end_time = None;
        self.status = StatusKind::Initializing;
        self.paused = false;
        self.file_provider = DosFileProvider::new();
        self.free_space_cache.invalidate();
        self.pending_cache_dirty = true;
        proof {
            lemma_count_le_len(self.clusters@, ClusterState::Pending);
        }
    }

    /// Toggling pause is accepted only while analyzing or defragmenting;
    /// it changes nothing but the pause flag.
    pub fn toggle_pause(&mut self)
        ensures
            pause_toggle_rel(*old(self), *final(self)),
            old(self).wf() ==> final(self).wf(),
    {
        if self.phase == DefragPhase::Defragmenting || self.phase == DefragPhase::Analyzing {
            self.paused = !self.paused;
        }
    }

    /// Toggle demo mode (automatic restart after finishing).
    pub fn toggle_demo_mode(&mut self)
        ensures
            *final(self) == (App { demo_mode: !old(self).demo_mode, ..*old(self) }),
            old(self).wf() ==> final(self).wf(),
    {
        self.demo_mode = !self.demo_mode;
    }

    /// Force the phase machine into `Analyzing` from any other phase,
    /// restarting the sweep.
    pub fn force_analyze(&mut self)
        ensures
            old(self).phase == DefragPhase::Analyzing ==> *final(self) == *old(self),
            old(self).phase != DefragPhase::Analyzing ==> *final(self) == (App {
                phase: DefragPhase::Analyzing,
                animation_step: 0,
                ..*old(self)
            }),
            old(self).wf() ==> final(self).wf(),
    {
        if self.phase != DefragPhase::Analyzing {
            self.phase = DefragPhase::Analyzing;
            self.animation_step = 0;
        }
    }

    /// Ask the engine to stop; the outer loop exits on its next turn.
    pub fn request_stop(&mut self)
        ensures
            *final(self) == (App { running: false, ..*old(self) }),
            old(self).wf() ==> final(self).wf(),
    {
        self.running = false;
    }

    /// Mark both derived caches as needing rebuild.
    pub fn invalidate_caches(&mut self)
        ensures
            final(self).pending_cache_dirty,
            final(self).free_space_cache.spec_dirty(),
            final(self).free_space_cache.regions_view() == old(self).free_space_cache.regions_view(),
            *final(self) == (App {
                pending_cache_dirty: true,
                free_space_cache: final(self).free_space_cache,
                ..*old(self)
            }),
            old(self).wf() ==> final(self).wf(),
    {
        self.free_space_cache.invalidate();
        self.pending_cache_dirty = true;
    }

    /// Count the clusters currently in state `state`.
    pub fn count_clusters(&self, state: ClusterState) -> (r: usize)
        ensures
            r == count_state(self.clusters@, state),
    {
        count_clusters_of(&self.clusters, state)
    }

    /// Rebuild the pending-cluster index if dirty, and return it.
    pub fn get_pending_indices(&mut self) -> (r: &Vec<usize>)
        requires
            old(self).wf(),
        ensures
            final(self).wf(),
            !final(self).pending_cache_dirty,
            pending_matches(final(self).pending_indices_cache@, final(self).clusters@),
            r@ == final(self).pending_indices_cache@,
            *final(self) == (App {
                pending_indices_cache: final(self).pending_indices_cache,
                pending_cache_dirty: false,
                ..*old(self)
            }),
    {
        if self.pending_cache_dirty {
            self.pending_indices_cache = compute_pending_indices(&self.clusters);
            self.pending_cache_dirty = false;
        }
        &self.pending_indices_cache
    }

    /// Start of the leftmost window of `size` contiguous `Unused` clusters,
    /// if the grid has one; `None` for a zero size.
    pub fn find_contiguous_unused_clusters(&self, size: usize) -> (r: Option<usize>)
        ensures
            match r {
                Some(s) => size >= 1 && window_free(self.clusters@, s as int, size as int) && (
                forall|t: int| 0 <= t < s ==> !window_free(self.clusters@, t, size as int)),
                None => forall|t: int| !window_free(self.clusters@, t, size as int),
            },
    {
        if size == 0 {
            proof {
                assert(forall|t: int| !window_free(self.clusters@, t, 0));
            }
            return None;
        }
        let n = self.clusters.len();
        let mut current_run: usize = 0;
        let mut i: usize = 0;
        while i < n
            invariant
                i <= n,
                size >= 1,
                n == self.clusters@.len(),
                current_run <= i,
                current_run < size,
                forall|j: int|
                    i - current_run <= j < i ==> self.clusters@[j] == ClusterState::Unused,
                i - current_run == 0 || self.clusters@[i - current_run - 1] != ClusterState::Unused,
                forall|t: int| 0 <= t && t + size <= i ==> !window_free(self.clusters@, t, size as int),
            decreases n - i,
        {
            if self.clusters[i] == ClusterState::Unused {
                current_run += 1;
                if current_run >= size {
                    let s = i + 1 - size;
                    proof {
                        assert(window_free(self.clusters@, s as int, size as int));
                    }
                    return Some(s);
                }
                proof {
                    assert forall|t: int| 0 <= t && t + size <= i + 1 implies !window_free(
                        self.clusters@,
                        t,
                        size as int,
                    ) by {
                        if t + size == i + 1 {
                            // This window would need the whole current run
                            // and one more cluster to its left, but the run
                            // is maximal on that side.
                            assert(size > current_run);
                            assert(t <= i - current_run);
                            if i + 1 - current_run == 0 {
                                assert(t < 0);
                            } else {
                                assert(self.clusters@[i - current_run] != ClusterState::Unused);
                                assert(t <= i - current_run < t + size);
                            }
                        }
                    }
                }
            } else {
                current_run = 0;
                proof {
                    assert forall|t: int| 0 <= t && t + size <= i + 1 implies !window_free(
                        self.clusters@,
                        t,
                        size as int,
                    ) by {
                        if t + size == i + 1 {
                            assert(t <= i < t + size);
                        }
                    }
                }
            }
            i += 1;
        }
        proof {
            assert forall|t: int| !window_free(self.clusters@, t, size as int) by {
                if 0 <= t && t + size <= n {
                    assert(!window_free(self.clusters@, t, size as int));
                }
            }
        }
        None
    }

    /// First cluster after `start_pos` in the given state, if any.
    pub fn find_next_cluster_in_file(&self, start_pos: usize, state: ClusterState) -> (r: Option<
        usize,
    >)
        requires
            start_pos < usize::MAX,
        ensures
            match r {
                Some(j) => start_pos < j < self.clusters@.len() && self.clusters@[j as int]
                    == state && (forall|t: int|
                    start_pos < t < j ==> self.clusters@[t] != state),
                None => forall|t: int|
                    start_pos < t < self.clusters@.len() ==> self.clusters@[t] != state,
            },
    {
        let n = self.clusters.len();
        let mut i: usize = start_pos + 1;
        while i < n
            invariant
                start_pos < i,
                i <= n || i == start_pos + 1,
                n == self.clusters@.len(),
                forall|t: int| start_pos < t < i ==> self.clusters@[t] != state,
            decreases n - i,
        {
            if self.clusters[i] == state {
                return Some(i);
            }
            i += 1;
        }
        None
    }
}

/// A window of `size` clusters starting at `t` lies in the grid and is all
/// `Unused`.
pub open spec fn window_free(g: Seq<ClusterState>, t: int, size: int) -> bool {
    &&& 0 <= t
    &&& 1 <= size
    &&& t + size <= g.len()
    &&& forall|i: int| t <= i < t + size ==> g[i] == ClusterState::Unused
}

/// How one `toggle_pause` call relates the state after to the state
/// before: the pause flag flips exactly in the two active phases, and no
/// other field changes.
pub open spec fn pause_toggle_rel(pre: App, post: App) -> bool {
    &&& post.paused == (if pre.phase == DefragPhase::Defragmenting || pre.phase
        == DefragPhase::Analyzing {
        !pre.paused
    } else {
        pre.paused
    })
    &&& post == (App { paused: post.paused, ..pre })
}

/// Toggling pause twice in succession restores the prior paused state and
/// alters neither phase nor counters nor any other part of the state.
pub proof fn lemma_toggle_pause_twice(s0: App, s1: App, s2: App)
    requires
        pause_toggle_rel(s0, s1),
        pause_toggle_rel(s1, s2),
    ensures
        s2.paused == s0.paused,
        s2 == (App { paused: s0.paused, ..s0 }),
        s2.phase == s0.phase,
        s2.stats == s0.stats,
{
}

} // verus!

use vstd::string::StringExecFns;

verus! {

/// The tick counter after one tick, capped at the top of its range.
pub open spec fn spec_step_inc(step: u64) -> u64 {
    if step < u64::MAX {
        (step + 1) as u64
    } else {
        step
    }
}

/// Whether the scheduled completion instant has elapsed at `now`.
pub open spec fn spec_op_elapsed(s: App, now_ms: u64) -> bool {
    match s.current_op_end_time {
        Some(t) => now_ms >= t,
        None => true,
    }
}

/// Whether this tick triggers the automatic demo-mode restart.
pub open spec fn spec_demo_restart(s: App, now_ms: u64) -> bool {
    &&& s.clusters@.len() > 0
    &&& s.phase == DefragPhase::Finished
    &&& s.demo_mode
    &&& spec_step_inc(s.animation_step) > FINISH_WAIT_TICKS / 2
}

/// Ticks the in-flight sub-state still needs before it clears.
pub open spec fn inflight_steps(p: Option<FileDefragPhase>) -> nat {
    match p {
        None => 0,
        Some(FileDefragPhase::Reading) => 3,
        Some(FileDefragPhase::Writing) => 2,
        Some(FileDefragPhase::Completed) => 1,
    }
}

/// Ranking of the defragmentation work left: every elapsed-completion tick
/// in the `Defragmenting` phase strictly decreases it until the phase ends,
/// so the phase ends after finitely many such ticks.
pub open spec fn defrag_measure(s: App) -> nat {
    4 * count_state(s.clusters@, ClusterState::Pending) + inflight_steps(
        s.current_file_read_progress,
    )
}

/// The measure starts, and stays, within four times the grid size plus
/// three, which bounds the number of productive defragmentation ticks.
pub proof fn lemma_defrag_measure_bounded(s: App)
    requires
        s.wf(),
    ensures
        defrag_measure(s) <= 4 * s.clusters@.len() + 3,
{
    lemma_count_le_len(s.clusters@, ClusterState::Pending);
}

/// `a + b`, capped at the top of the range.
pub open spec fn spec_sat_add(a: u64, b: u64) -> u64 {
    if a + b <= u64::MAX {
        (a + b) as u64
    } else {
        u64::MAX
    }
}

fn sat_add(a: u64, b: u64) -> (r: u64)
    ensures
        r == spec_sat_add(a, b),
{
    if a <= u64::MAX - b {
        a + b
    } else {
        u64::MAX
    }
}

/// One engine tick changes the grid only along the documented moves:
/// `Pending` to `Reading` or `Used`, `Reading` to `Unused`, `Unused` to
/// `Writing`, and `Writing` to `Used`. In particular `Bad` and `Unmovable`
/// clusters are never touched.
pub open spec fn grid_step_ok(g1: Seq<ClusterState>, g2: Seq<ClusterState>) -> bool {
    &&& g2.len() == g1.len()
    &&& (forall|i: int|
        0 <= i < g1.len() ==> (#[trigger] g2[i]) == g1[i] || (g1[i] == ClusterState::Pending && (
        g2[i] == ClusterState::Reading || g2[i] == ClusterState::Used)) || (g1[i]
            == ClusterState::Reading && g2[i] == ClusterState::Unused) || (g1[i]
            == ClusterState::Unused && g2[i] == ClusterState::Writing) || (g1[i]
            == ClusterState::Writing && g2[i] == ClusterState::Used))
}

/// `g` with the `k` clusters starting at `s` overwritten with `Writing`.
pub open spec fn mark_writing(g: Seq<ClusterState>, s: int, k: int) -> Seq<ClusterState> {
    Seq::new(g.len(), |i: int| if s <= i < s + k {
        ClusterState::Writing
    } else {
        g[i]
    })
}

/// Two grids with the same `Unused` positions have the same free windows.
proof fn lemma_window_same_unused(g1: Seq<ClusterState>, g2: Seq<ClusterState>, size: int)
    requires
        g1.len() == g2.len(),
        forall|i: int|
            0 <= i < g1.len() ==> ((g1[i] == ClusterState::Unused) <==> (g2[i]
                == ClusterState::Unused)),
    ensures
        forall|t: int| window_free(g1, t, size) <==> window_free(g2, t, size),
{
}

/// With a clean, sorted run list, a free window of `size` clusters exists
/// exactly when the head run is long enough.
proof fn lemma_window_iff_region(rs: Seq<(usize, usize)>, g: Seq<ClusterState>, size: int)
    requires
        regions_match(rs, g),
        crate::free_space::sorted_desc(rs),
        size >= 1,
    ensures
        (exists|t: int| window_free(g, t, size)) <==> (rs.len() > 0 && rs[0].1 >= size),
{
    if exists|t: int| window_free(g, t, size) {
        let t = choose|t: int| window_free(g, t, size);
        assert(g[t] == ClusterState::Unused);
        let k = choose|k: int|
            0 <= k < rs.len() && crate::free_space::run_covers(#[trigger] rs[k], t);
        let s = rs[k].0 as int;
        let l = rs[k].1 as int;
        // The maximal run through `t` swallows the whole window.
        assert(is_free_run(g, s, l));
        if s + l < t + size {
            assert(t <= s + l < t + size);
            assert(g[s + l] == ClusterState::Unused);
            assert(false);
        }
        assert(l >= size);
        assert(rs[0].1 >= rs[k].1);
    }
    if rs.len() > 0 && rs[0].1 >= size {
        let s = rs[0].0 as int;
        assert(is_free_run(g, s, rs[0].1 as int));
        assert(window_free(g, s, size));
    }
}

impl App {
    /// Begin one defragmentation operation on the chosen `Pending` cluster,
    /// with the drawn file size and base duration. The cluster is marked
    /// `Reading` and a seek cue is emitted. When the grid has `file_size`
    /// contiguous free clusters, a longest free run receives the file's
    /// `Writing` marks (capped by the drive's per-operation limit) and a
    /// file goes in flight; when it has none, the cluster is immediately
    /// counted defragmented, no `Reading` or `Writing` residue is left, and
    /// the next decision is scheduled for now.
    pub fn start_operation(
        &mut self,
        pending_idx: usize,
        file_size: usize,
        base_duration_ms: u64,
        now_ms: u64,
    ) -> (cues: UpdateCues)
        requires
            old(self).wf(),
            old(self).phase == DefragPhase::Defragmenting,
            old(self).current_file_read_progress is None,
            pending_idx < old(self).clusters@.len(),
            old(self).clusters@[pending_idx as int] == ClusterState::Pending,
            1 <= file_size <= 5,
        ensures
            final(self).wf(),
            final(self).phase == DefragPhase::Defragmenting,
            final(self).width == old(self).width,
            final(self).height == old(self).height,
            final(self).clusters@.len() == old(self).clusters@.len(),
            final(self).stats.total_to_defrag == old(self).stats.total_to_defrag,
            final(self).stats.start_time_ms == old(self).stats.start_time_ms,
            final(self).animation_step == old(self).animation_step,
            final(self).running == old(self).running,
            final(self).paused == old(self).paused,
            final(self).demo_mode == old(self).demo_mode,
            cues.play_seek && !cues.play_read,
            grid_step_ok(old(self).clusters@, final(self).clusters@),
            count_state(final(self).clusters@, ClusterState::Pending) == count_state(
                old(self).clusters@,
                ClusterState::Pending,
            ) - 1,
            defrag_measure(*final(self)) < defrag_measure(*old(self)),
            (exists|t: int| window_free(old(self).clusters@, t, file_size as int)) ==> ({
                &&& final(self).current_file_read_progress == Some(FileDefragPhase::Reading)
                &&& final(self).stats.clusters_defragged == old(self).stats.clusters_defragged
                &&& final(self).read_pos == Some(pending_idx)
                &&& !cues.play_write
                &&& final(self).current_filename == old(self).current_filename
                &&& final(self).current_op_end_time == Some(
                    spec_sat_add(now_ms, base_duration_ms as u64 / (if old(self).current_drive.config.iops >= 1 {
                        old(self).current_drive.config.iops as u64
                    } else {
                        1u64
                    })),
                )
                &&& (exists|s: int, l: int|
                    {
                        &&& is_free_run(
                            old(self).clusters@.update(pending_idx as int, ClusterState::Reading),
                            s,
                            l,
                        )
                        &&& l >= file_size
                        &&& (forall|s2: int, l2: int|
                            is_free_run(
                                old(self).clusters@.update(
                                    pending_idx as int,
                                    ClusterState::Reading,
                                ),
                                s2,
                                l2,
                            ) ==> l2 <= l)
                        &&& final(self).write_pos == Some(s as usize)
                        &&& final(self).clusters@ == mark_writing(
                            old(self).clusters@.update(pending_idx as int, ClusterState::Reading),
                            s,
                            (if file_size <= (if old(self).current_drive.config.iops >= 1 {
                                old(self).current_drive.config.iops as int
                            } else {
                                1
                            }) {
                                file_size as int
                            } else {
                                (if old(self).current_drive.config.iops >= 1 {
                                    old(self).current_drive.config.iops as int
                                } else {
                                    1
                                })
                            }),
                        )
                    })
            }),
            !(exists|t: int| window_free(old(self).clusters@, t, file_size as int)) ==> ({
                &&& final(self).clusters@ == old(self).clusters@.update(
                    pending_idx as int,
                    ClusterState::Used,
                )
                &&& final(self).stats.clusters_defragged == old(self).stats.clusters_defragged + 1
                &&& final(self).read_pos is None
                &&& final(self).write_pos == old(self).write_pos
                &&& final(self).current_file_read_progress is None
                &&& final(self).current_filename is None
                &&& cues.play_write
                &&& final(self).current_op_end_time == Some(now_ms)
            }),
    {
        let iops = self.current_drive.iops();
        let iops_factor: u64 = if iops >= 1 {
            iops as u64
        } else {
            1
        };
        let delay = base_duration_ms / iops_factor;
        self.current_op_end_time = Some(sat_add(now_ms, delay));

        let ghost g0 = self.clusters@;
        self.clusters[pending_idx] = ClusterState::Reading;
        self.read_pos = Some(pending_idx);
        self.free_space_cache.invalidate();
        self.pending_cache_dirty = true;
        let ghost g1 = self.clusters@;
        proof {
            crate::models::lemma_count_pos(g0, pending_idx as int, ClusterState::Pending);
            lemma_count_update(g0, pending_idx as int, ClusterState::Reading,
                ClusterState::Pending);
            lemma_window_same_unused(g0, g1, file_size as int);
        }

        self.free_space_cache.rebuild(&self.clusters);
        let found = self.free_space_cache.find_region(file_size);
        proof {
            lemma_window_iff_region(
                self.free_space_cache.regions_view(),
                g1,
                file_size as int,
            );
        }
        match found {
            Some(start) => {
                proof {
                    crate::free_space::lemma_find_region_worst_fit(
                        self.free_space_cache.regions_view(),
                        g1,
                        file_size,
                    );
                }
                let ghost run_len = self.free_space_cache.regions_view()[0].1 as int;
                let cap: usize = if iops >= 1 {
                    iops as usize
                } else {
                    1
                };
                let k = if file_size <= cap {
                    file_size
                } else {
                    cap
                };
                let ghost pre = *self;
                let n = self.clusters.len();
                let mut i: usize = 0;
                while i < k
                    invariant
                        i <= k,
                        1 <= k <= file_size,
                        n == g1.len(),
                        is_free_run(g1, start as int, run_len),
                        run_len >= file_size,
                        start + run_len <= g1.len(),
                        *self == (App { clusters: self.clusters, ..pre }),
                        self.clusters@ =~= mark_writing(g1, start as int, i as int),
                        self.clusters@.len() == g1.len(),
                    decreases k - i,
                {
                    proof {
                        assert(start + i < g1.len());
                        assert(g1[start + i] == ClusterState::Unused);
                    }
                    if start + i < n {
                        self.clusters[start + i] = ClusterState::Writing;
                        proof {
                            assert(self.clusters@ =~= mark_writing(g1, start as int, i + 1));
                        }
                    }
                    i += 1;
                }
                self.free_space_cache.invalidate();
                self.pending_cache_dirty = true;
                self.write_pos = Some(start);
                self.current_file_read_progress = Some(FileDefragPhase::Reading);
                self.status = StatusKind::ReadingFile;
                proof {
                    lemma_mark_writing_count_pending(g1, start as int, k as int);
                    assert(self.clusters@ =~= mark_writing(g1, start as int, k as int));
                    assert(is_free_run(g1, start as int, run_len));
                    assert(run_len >= file_size);
                    assert(window_free(g1, start as int, file_size as int));
                    lemma_window_same_unused(g0, g1, file_size as int);
                    // Each touched cell moves along an allowed transition:
                    // the chosen cluster from Pending to Reading, and run
                    // cells (all Unused, so never the chosen one) to Writing.
                    assert forall|i: int| 0 <= i < g0.len() implies (#[trigger] self.clusters@[i])
                        == g0[i] || (g0[i] == ClusterState::Pending && (self.clusters@[i]
                        == ClusterState::Reading || self.clusters@[i] == ClusterState::Used)) || (
                    g0[i] == ClusterState::Reading && self.clusters@[i] == ClusterState::Unused)
                        || (g0[i] == ClusterState::Unused && self.clusters@[i]
                        == ClusterState::Writing) || (g0[i] == ClusterState::Writing
                        && self.clusters@[i] == ClusterState::Used) by {
                        if start <= i < start + k {
                            assert(g1[i] == ClusterState::Unused);
                            assert(i != pending_idx);
                            assert(g0[i] == ClusterState::Unused);
                        } else if i == pending_idx {
                            assert(self.clusters@[i] == ClusterState::Reading);
                        } else {
                            assert(self.clusters@[i] == g1[i]);
                            assert(g1[i] == g0[i]);
                        }
                    }
                }
                UpdateCues { play_seek: true, play_read: false, play_write: false }
            },
            None => {
                self.clusters[pending_idx] = ClusterState::Used;
                self.stats.clusters_defragged = self.stats.clusters_defragged + 1;
                self.read_pos = None;
                self.current_filename = None;
                self.free_space_cache.invalidate();
                self.pending_cache_dirty = true;
                self.current_op_end_time = Some(now_ms);
                proof {
                    lemma_count_update(g1, pending_idx as int, ClusterState::Used,
                        ClusterState::Pending);
                    assert(self.clusters@ =~= g0.update(pending_idx as int, ClusterState::Used));
                    lemma_window_same_unused(g0, g1, file_size as int);
                }
                UpdateCues { play_seek: true, play_read: false, play_write: true }
            },
        }
    }

    /// Advance the in-flight file one sub-state on an elapsed completion:
    /// reading frees the read cluster, writing completes the write cluster
    /// and counts it defragmented, and a completed file is cleared with the
    /// next decision scheduled for now.
    pub fn advance_inflight(&mut self, now_ms: u64) -> (cues: UpdateCues)
        requires
            old(self).wf(),
            old(self).phase == DefragPhase::Defragmenting,
            old(self).current_file_read_progress is Some,
        ensures
            final(self).wf(),
            final(self).phase == DefragPhase::Defragmenting,
            final(self).width == old(self).width,
            final(self).height == old(self).height,
            final(self).clusters@.len() == old(self).clusters@.len(),
            final(self).stats.total_to_defrag == old(self).stats.total_to_defrag,
            final(self).stats.start_time_ms == old(self).stats.start_time_ms,
            final(self).stats.clusters_defragged >= old(self).stats.clusters_defragged,
            final(self).animation_step == old(self).animation_step,
            final(self).running == old(self).running,
            final(self).paused == old(self).paused,
            final(self).demo_mode == old(self).demo_mode,
            count_state(final(self).clusters@, ClusterState::Pending) == count_state(
                old(self).clusters@,
                ClusterState::Pending,
            ),
            defrag_measure(*final(self)) < defrag_measure(*old(self)),
            !cues.play_seek,
            grid_step_ok(old(self).clusters@, final(self).clusters@),
            old(self).current_file_read_progress == Some(FileDefragPhase::Reading) ==> ({
                &&& final(self).current_file_read_progress == Some(FileDefragPhase::Writing)
                &&& final(self).stats.clusters_defragged == old(self).stats.clusters_defragged
                &&& final(self).read_pos == old(self).read_pos
                &&& final(self).write_pos == old(self).write_pos
                &&& final(self).current_op_end_time == old(self).current_op_end_time
                &&& (match old(self).read_pos {
                    Some(i) => (if old(self).clusters@[i as int] == ClusterState::Reading {
                        final(self).clusters@ == old(self).clusters@.update(
                            i as int,
                            ClusterState::Unused,
                        ) && cues.play_read
                    } else {
                        final(self).clusters@ == old(self).clusters@ && !cues.play_read
                    }),
                    None => final(self).clusters@ == old(self).clusters@ && !cues.play_read,
                })
                &&& !cues.play_write
            }),
            old(self).current_file_read_progress == Some(FileDefragPhase::Writing) ==> ({
                &&& final(self).current_file_read_progress == Some(FileDefragPhase::Completed)
                &&& final(self).read_pos == old(self).read_pos
                &&& final(self).write_pos == old(self).write_pos
                &&& final(self).current_op_end_time == old(self).current_op_end_time
                &&& (match old(self).write_pos {
                    Some(i) => (if old(self).clusters@[i as int] == ClusterState::Writing {
                        final(self).clusters@ == old(self).clusters@.update(
                            i as int,
                            ClusterState::Used,
                        ) && cues.play_write && final(self).stats.clusters_defragged == old(self).stats.clusters_defragged + 1
                    } else {
                        final(self).clusters@ == old(self).clusters@ && !cues.play_write && final(self).stats.clusters_defragged == old(self).stats.clusters_defragged
                    }),
                    None => final(self).clusters@ == old(self).clusters@ && !cues.play_write
                        && final(self).stats.clusters_defragged == old(self).stats.clusters_defragged,
                })
                &&& !cues.play_read
            }),
            old(self).current_file_read_progress == Some(FileDefragPhase::Completed) ==> ({
                &&& final(self).current_file_read_progress is None
                &&& final(self).current_filename is None
                &&& final(self).current_op_end_time == Some(now_ms)
                &&& final(self).clusters@ == old(self).clusters@
                &&& final(self).stats == old(self).stats
                &&& cues == no_cues()
            }),
    {
        let prog = match self.current_file_read_progress {
            Some(p) => p,
            None => FileDefragPhase::Completed,
        };
        match prog {
            FileDefragPhase::Reading => {
                let mut played = false;
                if let Some(reading_idx) = self.read_pos {
                    if self.clusters[reading_idx] == ClusterState::Reading {
                        let ghost g0 = self.clusters@;
                        self.clusters[reading_idx] = ClusterState::Unused;
                        self.free_space_cache.invalidate();
                        self.pending_cache_dirty = true;
                        played = true;
                        proof {
                            lemma_count_update(g0, reading_idx as int, ClusterState::Unused,
                                ClusterState::Pending);
                        }
                    }
                }
                self.current_file_read_progress = Some(FileDefragPhase::Writing);
                self.status = StatusKind::WritingFile;
                UpdateCues { play_seek: false, play_read: played, play_write: false }
            },
            FileDefragPhase::Writing => {
                let mut played = false;
                if let Some(write_idx) = self.write_pos {
                    if self.clusters[write_idx] == ClusterState::Writing {
                        let ghost g0 = self.clusters@;
                        self.clusters[write_idx] = ClusterState::Used;
                        self.stats.clusters_defragged = self.stats.clusters_defragged + 1;
                        self.free_space_cache.invalidate();
                        self.pending_cache_dirty = true;
                        played = true;
                        proof {
                            lemma_count_update(g0, write_idx as int, ClusterState::Used,
                                ClusterState::Pending);
                        }
                    }
                }
                self.current_file_read_progress = Some(FileDefragPhase::Completed);
                self.status = StatusKind::FinishingFile;
                UpdateCues { play_seek: false, play_read: false, play_write: played }
            },
            FileDefragPhase::Completed => {
                self.current_file_read_progress = None;
                self.current_filename = None;
                self.current_op_end_time = Some(now_ms);
                self.status = StatusKind::SearchingNext;
                quiet_cues()
            },
        }
    }
}

/// Overwriting `Unused` clusters with `Writing` leaves the `Pending` count
/// unchanged.
proof fn lemma_mark_writing_count_pending(g: Seq<ClusterState>, s: int, k: int)
    requires
        0 <= k,
        forall|i: int| s <= i < s + k && 0 <= i < g.len() ==> g[i] == ClusterState::Unused,
    ensures
        count_state(mark_writing(g, s, k), ClusterState::Pending) == count_state(
            g,
            ClusterState::Pending,
        ),
    decreases g.len(),
{
    let m = mark_writing(g, s, k);
    if g.len() == 0 {
        assert(m =~= g);
    } else {
        let gp = g.drop_last();
        lemma_mark_writing_count_pending(gp, s, k);
        assert(m.drop_last() =~= mark_writing(gp, s, k));
        assert(m.last() == (if s <= g.len() - 1 < s + k {
            ClusterState::Writing
        } else {
            g.last()
        }));
    }
}

} // verus!

verus! {

/// Analysis sweep position at tick `inc` over a grid of `len` clusters:
/// five clusters per tick, clamped to the last index.
pub open spec fn spec_scan_pos(inc: u64, len: int) -> int {
    if 5 * (inc as int) < len {
        5 * (inc as int)
    } else {
        len - 1
    }
}

impl App {
    /// One tick of the simulation. The caller invokes this at most once per
    /// elapsed tick interval while not paused, passing the monotonic clock
    /// in milliseconds, and plays the returned cues.
    ///
    /// Within a run the defragmented counter never decreases and never
    /// exceeds the total; only the automatic demo-mode restart resets it.
    /// In the `Defragmenting` phase, every call whose scheduled completion
    /// has elapsed either ends the phase or strictly decreases
    /// `defrag_measure`, so the phase ends after finitely many such calls.
    pub fn update(&mut self, now_ms: u64) -> (cues: UpdateCues)
        requires
            old(self).wf(),
        ensures
            final(self).wf(),
            final(self).width == old(self).width,
            final(self).height == old(self).height,
            final(self).clusters@.len() == old(self).clusters@.len(),
            final(self).demo_mode == old(self).demo_mode,
            spec_demo_restart(*old(self), now_ms) || final(self).paused == old(self).paused,
            spec_demo_restart(*old(self), now_ms) || (final(self).stats.clusters_defragged >= old(self).stats.clusters_defragged && final(self).stats.total_to_defrag == old(self).stats.total_to_defrag),
            final(self).stats.clusters_defragged <= final(self).stats.total_to_defrag,
            spec_demo_restart(*old(self), now_ms) ==> ({
                &&& final(self).stats.clusters_defragged == 0
                &&& final(self).phase == DefragPhase::Initializing
                &&& final(self).pending_cache_dirty
                &&& final(self).free_space_cache.spec_dirty()
                &&& final(self).animation_step == 0
                &&& !final(self).paused
            }),
            !spec_demo_restart(*old(self), now_ms) ==> grid_step_ok(
                old(self).clusters@,
                final(self).clusters@,
            ),
            !spec_demo_restart(*old(self), now_ms) ==> (forall|i: int|
                0 <= i < old(self).clusters@.len() && (#[trigger] old(self).clusters@[i])
                    == ClusterState::Bad ==> final(self).clusters@[i] == ClusterState::Bad),
            !spec_demo_restart(*old(self), now_ms) ==> (forall|i: int|
                0 <= i < old(self).clusters@.len() && (#[trigger] old(self).clusters@[i])
                    == ClusterState::Unmovable ==> final(self).clusters@[i]
                    == ClusterState::Unmovable),
            old(self).clusters@.len() == 0 ==> (*final(self) == *old(self) && cues == no_cues()),
            (old(self).clusters@.len() > 0 && old(self).phase == DefragPhase::Initializing) ==> ({
                &&& cues == no_cues()
                &&& (if spec_step_inc(old(self).animation_step) > INIT_DURATION_TICKS {
                    *final(self) == (App {
                        phase: DefragPhase::Analyzing,
                        animation_step: 0,
                        status: StatusKind::Initializing,
                        ..*old(self)
                    })
                } else {
                    *final(self) == (App {
                        animation_step: spec_step_inc(old(self).animation_step),
                        status: StatusKind::Initializing,
                        ..*old(self)
                    })
                })
            }),
            (old(self).clusters@.len() > 0 && old(self).phase == DefragPhase::Analyzing) ==> ({
                &&& !cues.play_read && !cues.play_write
                &&& (cues.play_seek <==> spec_step_inc(old(self).animation_step) % 3 == 0)
                &&& (if spec_step_inc(old(self).animation_step) > (old(self).clusters@.len() as u64) / 5 + 10 {
                    *final(self) == (App {
                        phase: DefragPhase::Defragmenting,
                        animation_step: 0,
                        read_pos: None,
                        current_op_end_time: Some(now_ms),
                        status: StatusKind::Analyzing,
                        ..*old(self)
                    })
                } else {
                    *final(self) == (App {
                        animation_step: spec_step_inc(old(self).animation_step),
                        read_pos: Some(
                            spec_scan_pos(
                                spec_step_inc(old(self).animation_step),
                                old(self).clusters@.len() as int,
                            ) as usize,
                        ),
                        status: StatusKind::Analyzing,
                        ..*old(self)
                    })
                })
            }),
            (old(self).clusters@.len() > 0 && old(self).phase == DefragPhase::Defragmenting) ==> ({
                &&& (final(self).phase == DefragPhase::Defragmenting || final(self).phase
                    == DefragPhase::Finished)
                &&& (!spec_op_elapsed(*old(self), now_ms) ==> (*final(self) == (App {
                    animation_step: spec_step_inc(old(self).animation_step),
                    status: StatusKind::Waiting,
                    ..*old(self)
                }) && cues == no_cues()))
                &&& (spec_op_elapsed(*old(self), now_ms) ==> (final(self).phase
                    == DefragPhase::Finished || defrag_measure(*final(self)) < defrag_measure(
                    *old(self),
                )))
                &&& ((spec_op_elapsed(*old(self), now_ms) && old(self).current_file_read_progress
                    is None && count_state(old(self).clusters@, ClusterState::Pending) == 0) ==> ({
                    &&& final(self).phase == DefragPhase::Finished
                    &&& final(self).clusters@ == old(self).clusters@
                    &&& final(self).stats == old(self).stats
                    &&& final(self).read_pos is None
                    &&& final(self).write_pos is None
                    &&& final(self).current_filename is None
                    &&& cues == no_cues()
                }))
                &&& ((spec_op_elapsed(*old(self), now_ms) && old(self).current_file_read_progress
                    is None && count_state(old(self).clusters@, ClusterState::Pending) > 0) ==> ({
                    &&& final(self).phase == DefragPhase::Defragmenting
                    &&& cues.play_seek
                    &&& count_state(final(self).clusters@, ClusterState::Pending) == count_state(
                        old(self).clusters@,
                        ClusterState::Pending,
                    ) - 1
                }))
                &&& ((spec_op_elapsed(*old(self), now_ms) && old(self).current_file_read_progress
                    == Some(FileDefragPhase::Reading)) ==> ({
                    &&& final(self).current_file_read_progress == Some(FileDefragPhase::Writing)
                    &&& final(self).stats.clusters_defragged == old(self).stats.clusters_defragged
                    &&& final(self).read_pos == old(self).read_pos
                    &&& final(self).write_pos == old(self).write_pos
                    &&& final(self).current_op_end_time == old(self).current_op_end_time
                    &&& (match old(self).read_pos {
                        Some(i) => (if old(self).clusters@[i as int] == ClusterState::Reading {
                            final(self).clusters@ == old(self).clusters@.update(
                                i as int,
                                ClusterState::Unused,
                            ) && cues.play_read
                        } else {
                            final(self).clusters@ == old(self).clusters@ && !cues.play_read
                        }),
                        None => final(self).clusters@ == old(self).clusters@ && !cues.play_read,
                    })
                    &&& !cues.play_write && !cues.play_seek
                }))
                &&& ((spec_op_elapsed(*old(self), now_ms) && old(self).current_file_read_progress
                    == Some(FileDefragPhase::Writing)) ==> ({
                    &&& final(self).current_file_read_progress == Some(FileDefragPhase::Completed)
                    &&& final(self).read_pos == old(self).read_pos
                    &&& final(self).write_pos == old(self).write_pos
                    &&& final(self).current_op_end_time == old(self).current_op_end_time
                    &&& (match old(self).write_pos {
                        Some(i) => (if old(self).clusters@[i as int] == ClusterState::Writing {
                            final(self).clusters@ == old(self).clusters@.update(
                                i as int,
                                ClusterState::Used,
                            ) && cues.play_write && final(self).stats.clusters_defragged == old(
                                self,
                            ).stats.clusters_defragged + 1
                        } else {
                            final(self).clusters@ == old(self).clusters@ && !cues.play_write
                                && final(self).stats.clusters_defragged == old(
                                self,
                            ).stats.clusters_defragged
                        }),
                        None => final(self).clusters@ == old(self).clusters@ && !cues.play_write
                            && final(self).stats.clusters_defragged == old(
                            self,
                        ).stats.clusters_defragged,
                    })
                    &&& !cues.play_read && !cues.play_seek
                }))
                &&& ((spec_op_elapsed(*old(self), now_ms) && old(self).current_file_read_progress
                    == Some(FileDefragPhase::Completed)) ==> ({
                    &&& final(self).current_file_read_progress is None
                    &&& final(self).current_filename is None
                    &&& final(self).current_op_end_time == Some(now_ms)
                    &&& final(self).clusters@ == old(self).clusters@
                    &&& final(self).stats == old(self).stats
                    &&& cues == no_cues()
                }))
            }),
            (old(self).clusters@.len() > 0 && old(self).phase == DefragPhase::Finished) ==> ({
                &&& cues == no_cues()
                &&& (!spec_demo_restart(*old(self), now_ms) && !(!old(self).demo_mode
                    && spec_step_inc(old(self).animation_step) > FINISH_WAIT_TICKS) ==> *final(self) == (App {
                    animation_step: spec_step_inc(old(self).animation_step),
                    status: StatusKind::Complete,
                    ..*old(self)
                }))
                &&& ((!old(self).demo_mode && spec_step_inc(old(self).animation_step)
                    > FINISH_WAIT_TICKS) ==> *final(self) == (App {
                    running: false,
                    animation_step: spec_step_inc(old(self).animation_step),
                    status: StatusKind::Complete,
                    ..*old(self)
                }))
            }),
    {
        let total = self.clusters.len();
        if total == 0 {
            return quiet_cues();
        }
        let inc = if self.animation_step < u64::MAX {
            self.animation_step + 1
        } else {
            self.animation_step
        };
        self.animation_step = inc;

        let cues = match self.phase {
            DefragPhase::Initializing => {
                self.status = StatusKind::Initializing;
                if inc > INIT_DURATION_TICKS {
                    self.phase = DefragPhase::Analyzing;
                    self.animation_step = 0;
                }
                quiet_cues()
            },
            DefragPhase::Analyzing => {
                self.status = StatusKind::Analyzing;
                let scan: usize = if inc > (total as u64) {
                    total - 1
                } else {
                    let m = inc * 5;
                    if m < (total as u64) {
                        m as usize
                    } else {
                        total - 1
                    }
                };
                self.read_pos = Some(scan);
                let cues = UpdateCues {
                    play_seek: inc % 3 == 0,
                    play_read: false,
                    play_write: false,
                };
                if inc > (total as u64) / 5 + 10 {
                    self.read_pos = None;
                    self.phase = DefragPhase::Defragmenting;
                    self.animation_step = 0;
                    self.current_op_end_time = Some(now_ms);
                }
                cues
            },
            DefragPhase::Defragmenting => {
                let elapsed = match self.current_op_end_time {
                    Some(t) => now_ms >= t,
                    None => true,
                };
                if elapsed {
                    let has_inflight = match self.current_file_read_progress {
                        Some(_) => true,
                        None => false,
                    };
                    if !has_inflight {
                        if self.pending_cache_dirty {
                            self.pending_indices_cache = compute_pending_indices(&self.clusters);
                            self.pending_cache_dirty = false;
                        }
                        let choice = choose_value(&self.pending_indices_cache);
                        match choice {
                            None => {
                                proof {
                                    lemma_count_zero(self.clusters@, ClusterState::Pending);
                                }
                                self.phase = DefragPhase::Finished;
                                self.current_filename = None;
                                self.read_pos = None;
                                self.write_pos = None;
                                quiet_cues()
                            },
                            Some(idx) => {
                                proof {
                                    let ghost ps = self.pending_indices_cache@;
                                    let k = choose|k: int| 0 <= k < ps.len() && ps[k] == idx;
                                    assert(self.clusters@[idx as int] == ClusterState::Pending);
                                    crate::models::lemma_count_pos(
                                        self.clusters@,
                                        idx as int,
                                        ClusterState::Pending,
                                    );
                                }
                                self.current_filename = self.file_provider.get_random_filename();
                                let fs = gen_range_u64(1, 5) as usize;
                                let base = gen_range_u64(1000, 3000);
                                self.start_operation(idx, fs, base, now_ms)
                            },
                        }
                    } else {
                        self.advance_inflight(now_ms)
                    }
                } else {
                    self.status = StatusKind::Waiting;
                    quiet_cues()
                }
            },
            DefragPhase::Finished => {
                self.status = StatusKind::Complete;
                if self.demo_mode {
                    if inc > FINISH_WAIT_TICKS / 2 {
                        self.restart(now_ms);
                    }
                } else {
                    if inc > FINISH_WAIT_TICKS {
                        self.running = false;
                    }
                }
                quiet_cues()
            },
        };
        proof {
            if !spec_demo_restart(*old(self), now_ms) {
                assert(grid_step_ok(old(self).clusters@, self.clusters@));
                assert forall|i: int|
                    0 <= i < old(self).clusters@.len() && (#[trigger] old(self).clusters@[i])
                        == ClusterState::Bad implies self.clusters@[i] == ClusterState::Bad by {
                    assert(self.clusters@[i] == self.clusters@[i]);
                }
                assert forall|i: int|
                    0 <= i < old(self).clusters@.len() && (#[trigger] old(self).clusters@[i])
                        == ClusterState::Unmovable implies self.clusters@[i]
                    == ClusterState::Unmovable by {
                    assert(self.clusters@[i] == self.clusters@[i]);
                }
            }
        }
        cues
    }
}

} // verus!

verus! {

/// Progress toward completion, in whole percent.
pub open spec fn spec_progress_percent(s: App) -> int {
    if s.stats.total_to_defrag == 0 {
        100
    } else {
        s.stats.clusters_defragged * 100 / s.stats.total_to_defrag as int
    }
}

/// Estimated remaining time in milliseconds: none outside the
/// `Defragmenting` phase or before the first cluster completes; otherwise
/// the remaining work divided by the observed rate, capped at the top of
/// the range.
pub open spec fn spec_eta_ms(s: App, now_ms: u64) -> Option<u64> {
    if s.stats.clusters_defragged == 0 || s.phase != DefragPhase::Defragmenting {
        None
    } else if s.stats.total_to_defrag <= s.stats.clusters_defragged {
        Some(0u64)
    } else {
        let remaining = s.stats.total_to_defrag - s.stats.clusters_defragged;
        let elapsed: int = if now_ms >= s.stats.start_time_ms {
            now_ms - s.stats.start_time_ms
        } else {
            0
        };
        let est = remaining * elapsed / s.stats.clusters_defragged as int;
        if est > u64::MAX {
            Some(u64::MAX)
        } else {
            Some(est as u64)
        }
    }
}

/// Share of the data still fragmented, in whole percent of all data
/// clusters (`Pending` plus `Used`).
pub open spec fn spec_fragmentation_percent(s: App) -> int {
    let pending = count_state(s.clusters@, ClusterState::Pending) as int;
    let used = count_state(s.clusters@, ClusterState::Used) as int;
    if pending + used == 0 {
        0
    } else {
        pending * 100 / (pending + used)
    }
}

/// The filename shown for the in-flight file, or "file" when none is set.
pub open spec fn spec_display_name(s: App) -> Seq<char> {
    match s.current_filename {
        Some(n) => n@,
        None => "file"@,
    }
}

/// The animated trailing dots for a waiting tick.
pub open spec fn spec_dots(step: u64) -> Seq<char> {
    if step % 4 == 0 {
        ""@
    } else if step % 4 == 1 {
        "."@
    } else if step % 4 == 2 {
        ".."@
    } else {
        "..."@
    }
}

/// The verb shown while an operation's completion has not elapsed.
pub open spec fn spec_waiting_prefix(s: App) -> Seq<char> {
    match s.current_file_read_progress {
        Some(FileDefragPhase::Reading) => "Reading"@,
        Some(FileDefragPhase::Writing) => "Writing"@,
        _ => "Processing"@,
    }
}

/// The full status line: "Paused" while paused, otherwise the text that
/// belongs to the current status kind.
pub open spec fn spec_status_text(s: App) -> Seq<char> {
    if s.paused {
        "Paused"@
    } else {
        match s.status {
            StatusKind::Initializing => "Initializing..."@,
            StatusKind::Analyzing => "Analyzing disk..."@,
            StatusKind::Defragmenting => "Defragmenting..."@,
            StatusKind::Complete => "Complete"@,
            StatusKind::ReadingFile => "Reading "@ + spec_display_name(s) + "..."@,
            StatusKind::WritingFile => "Writing "@ + spec_display_name(s) + "..."@,
            StatusKind::FinishingFile => "Finishing "@ + spec_display_name(s) + "..."@,
            StatusKind::SearchingNext => "Looking for next file..."@,
            StatusKind::Waiting => spec_waiting_prefix(s) + " "@ + spec_display_name(s)
                + spec_dots(s.animation_step),
        }
    }
}

/// Compose `prefix`, the display form of `name`, and `suffix`.
fn compose_file_message(prefix: &str, name: &Option<String>, suffix: &str) -> (r: String)
    ensures
        r@ == prefix@ + (match name {
            Some(n) => n@,
            None => "file"@,
        }) + suffix@,
{
    let mut s = prefix.to_owned();
    match name {
        Some(n) => s.append(n.as_str()),
        None => s.append("file"),
    }
    s.append(suffix);
    s
}

impl App {
    /// Progress toward completion, in whole percent; 100 when there is
    /// nothing to defragment.
    pub fn progress_percent(&self) -> (r: usize)
        requires
            self.wf(),
        ensures
            r == spec_progress_percent(*self),
    {
        if self.stats.total_to_defrag == 0 {
            return 100;
        }
        proof {
            assert(self.stats.clusters_defragged * 100 <= (usize::MAX / 1000 + 2) * 100)
                by (nonlinear_arith)
                requires
                    self.stats.clusters_defragged <= usize::MAX / 1000 + 2,
            ;
        }
        self.stats.clusters_defragged * 100 / self.stats.total_to_defrag
    }

    /// Estimated remaining time in milliseconds.
    pub fn estimated_time_remaining(&self, now_ms: u64) -> (r: Option<u64>)
        requires
            self.wf(),
        ensures
            r == spec_eta_ms(*self, now_ms),
    {
        if self.stats.clusters_defragged == 0 {
            return None;
        }
        if !(self.phase == DefragPhase::Defragmenting) {
            return None;
        }
        let total = self.stats.total_to_defrag;
        let done = self.stats.clusters_defragged;
        if total <= done {
            return Some(0);
        }
        let remaining = total - done;
        let elapsed: u64 = if now_ms >= self.stats.start_time_ms {
            now_ms - self.stats.start_time_ms
        } else {
            0
        };
        proof {
            assert((remaining as int) * (elapsed as int) <= u128::MAX as int)
                by (nonlinear_arith)
                requires
                    remaining as int <= u64::MAX as int,
                    elapsed as int <= u64::MAX as int,
            ;
        }
        let prod: u128 = (remaining as u128) * (elapsed as u128);
        let est: u128 = prod / (done as u128);
        if est > (u64::MAX as u128) {
            Some(u64::MAX)
        } else {
            Some(est as u64)
        }
    }

    /// Share of the data still fragmented, in whole percent.
    pub fn fragmentation_percent(&self) -> (r: usize)
        requires
            self.wf(),
        ensures
            r == spec_fragmentation_percent(*self),
    {
        let pending = self.count_clusters(ClusterState::Pending);
        let used = self.count_clusters(ClusterState::Used);
        proof {
            lemma_count_le_len(self.clusters@, ClusterState::Pending);
            lemma_count_le_len(self.clusters@, ClusterState::Used);
            assert(pending * 100 <= (usize::MAX / 1000) * 100) by (nonlinear_arith)
                requires
                    pending <= usize::MAX / 1000,
            ;
        }
        if pending + used == 0 {
            return 0;
        }
        pending * 100 / (pending + used)
    }

    /// The status line to display.
    pub fn status_text(&self) -> (r: String)
        ensures
            r@ == spec_status_text(*self),
    {
        if self.paused {
            return "Paused".to_owned();
        }
        match self.status {
            StatusKind::Initializing => "Initializing...".to_owned(),
            StatusKind::Analyzing => "Analyzing disk...".to_owned(),
            StatusKind::Defragmenting => "Defragmenting...".to_owned(),
            StatusKind::Complete => "Complete".to_owned(),
            StatusKind::ReadingFile => compose_file_message(
                "Reading ",
                &self.current_filename,
                "...",
            ),
            StatusKind::WritingFile => compose_file_message(
                "Writing ",
                &self.current_filename,
                "...",
            ),
            StatusKind::FinishingFile => compose_file_message(
                "Finishing ",
                &self.current_filename,
                "...",
            ),
            StatusKind::SearchingNext => "Looking for next file...".to_owned(),
            StatusKind::Waiting => {
                let prefix: &str = match self.current_file_read_progress {
                    Some(FileDefragPhase::Reading) => "Reading",
                    Some(FileDefragPhase::Writing) => "Writing",
                    _ => "Processing",
                };
                let m = self.animation_step % 4;
                let dots: &str = if m == 0 {
                    ""
                } else if m == 1 {
                    "."
                } else if m == 2 {
                    ".."
                } else {
                    "..."
                };
                let mut s = prefix.to_owned();
                s.append(" ");
                match &self.current_filename {
                    Some(n) => s.append(n.as_str()),
                    None => s.append("file"),
                }
                s.append(dots);
                s
            },
        }
    }
}

} // verus!
