use defrag_simulator_rs::engine::App;
use defrag_simulator_rs::free_space::FreeSpaceCache;
use defrag_simulator_rs::models::ClusterState;

fn sample_grid() -> Vec<ClusterState> {
    // Runs of Unused: (1,2), (4,1), (6,3).
    vec![
        ClusterState::Unmovable,
        ClusterState::Unused,
        ClusterState::Unused,
        ClusterState::Pending,
        ClusterState::Unused,
        ClusterState::Bad,
        ClusterState::Unused,
        ClusterState::Unused,
        ClusterState::Unused,
    ]
}

#[test]
fn cache_starts_dirty_and_rebuild_clears() {
    let mut cache = FreeSpaceCache::new();
    assert!(cache.is_dirty());
    cache.rebuild(&sample_grid());
    assert!(!cache.is_dirty());
    cache.invalidate();
    assert!(cache.is_dirty());
}

#[test]
fn find_region_returns_longest_run() {
    let mut cache = FreeSpaceCache::new();
    cache.rebuild(&sample_grid());
    // Worst fit: always the longest run, which starts at index 6.
    assert_eq!(cache.find_region(1), Some(6));
    assert_eq!(cache.find_region(2), Some(6));
    assert_eq!(cache.find_region(3), Some(6));
    assert_eq!(cache.find_region(4), None);
}

#[test]
fn find_region_empty_and_full() {
    let mut cache = FreeSpaceCache::new();
    cache.rebuild(&vec![ClusterState::Pending, ClusterState::Used]);
    assert_eq!(cache.find_region(1), None);
    let mut cache2 = FreeSpaceCache::new();
    cache2.rebuild(&vec![ClusterState::Unused; 5]);
    assert_eq!(cache2.find_region(5), Some(0));
    assert_eq!(cache2.find_region(6), None);
}

#[test]
fn first_fit_scan_differs_from_worst_fit() {
    let mut app = App::new(3, 3, 0, 'C', 0);
    app.clusters = sample_grid();
    // The linear scan is first-fit: the leftmost window wins.
    assert_eq!(app.find_contiguous_unused_clusters(1), Some(1));
    assert_eq!(app.find_contiguous_unused_clusters(2), Some(1));
    assert_eq!(app.find_contiguous_unused_clusters(3), Some(6));
    assert_eq!(app.find_contiguous_unused_clusters(4), None);
    assert_eq!(app.find_contiguous_unused_clusters(0), None);
}

#[test]
fn find_next_cluster_in_file_scans_right() {
    let mut app = App::new(3, 3, 0, 'C', 0);
    app.clusters = sample_grid();
    assert_eq!(
        app.find_next_cluster_in_file(0, ClusterState::Unused),
        Some(1)
    );
    assert_eq!(
        app.find_next_cluster_in_file(2, ClusterState::Unused),
        Some(4)
    );
    assert_eq!(app.find_next_cluster_in_file(5, ClusterState::Pending), None);
}

#[test]
fn find_region_breaks_ties_toward_smallest_start() {
    // Two free runs of equal (maximal) length: worst fit picks the one
    // that starts first.
    let grid = vec![
        ClusterState::Unused,
        ClusterState::Unused,
        ClusterState::Pending,
        ClusterState::Unused,
        ClusterState::Unused,
    ];
    let mut cache = FreeSpaceCache::new();
    cache.rebuild(&grid);
    assert_eq!(cache.find_region(1), Some(0));
    assert_eq!(cache.find_region(2), Some(0));
    assert_eq!(cache.find_region(3), None);
}

#[test]
fn pending_index_is_strictly_ascending() {
    let mut app = App::new(3, 3, 0, 'C', 0);
    app.clusters = vec![
        ClusterState::Used,
        ClusterState::Pending,
        ClusterState::Unused,
        ClusterState::Pending,
        ClusterState::Bad,
        ClusterState::Pending,
        ClusterState::Unused,
        ClusterState::Used,
        ClusterState::Pending,
    ];
    app.pending_cache_dirty = true;
    let ps = app.get_pending_indices().clone();
    assert_eq!(ps, vec![1, 3, 5, 8]);
    assert!(!app.pending_cache_dirty);
}
