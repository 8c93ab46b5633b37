use defrag_simulator_rs::engine::{count_clusters_of, generate_layout, App};
use defrag_simulator_rs::fragment::FileFragment;
use defrag_simulator_rs::models::ClusterState;

#[test]
fn layout_size_and_unmovable() {
    let (grid, total) = generate_layout(8, 4, 650);
    assert_eq!(grid.len(), 32);
    assert_eq!(grid[0], ClusterState::Unmovable);
    let pending = count_clusters_of(&grid, ClusterState::Pending);
    assert_eq!(total, pending + 2);
}

#[test]
fn layout_empty_grid() {
    let (grid, total) = generate_layout(0, 7, 650);
    assert_eq!(grid.len(), 0);
    assert_eq!(total, 2);
}

#[test]
fn layout_four_by_four_half_fill() {
    // 16 clusters at fill 0.5: eight data entries are emitted (six Pending
    // plus the two seeds); forcing index 0 to Unmovable may overwrite one.
    let (grid, total) = generate_layout(4, 4, 500);
    assert_eq!(grid.len(), 16);
    assert_eq!(grid[0], ClusterState::Unmovable);
    let pending = count_clusters_of(&grid, ClusterState::Pending);
    let writing = count_clusters_of(&grid, ClusterState::Writing);
    let reading = count_clusters_of(&grid, ClusterState::Reading);
    let bad = count_clusters_of(&grid, ClusterState::Bad);
    let data = pending + writing + reading;
    assert!(7 <= data && data <= 8, "data clusters: {}", data);
    assert_eq!(bad, 0);
    assert_eq!(count_clusters_of(&grid, ClusterState::Unmovable), 1);
    assert_eq!(total, pending + 2);
}

#[test]
fn layout_bad_blocks_bounded() {
    // 2% of 400 clusters: at most eight bad blocks survive generation.
    let (grid, _) = generate_layout(20, 20, 650);
    let bad = count_clusters_of(&grid, ClusterState::Bad);
    assert!(bad <= 8, "bad blocks: {}", bad);
}

#[test]
fn new_app_matches_layout_contract() {
    let app = App::new(4, 4, 500, 'C', 0);
    assert_eq!(app.clusters.len(), 16);
    assert_eq!(app.clusters[0], ClusterState::Unmovable);
    assert_eq!(
        app.stats.total_to_defrag,
        app.count_clusters(ClusterState::Pending) + 2
    );
    assert_eq!(app.stats.clusters_defragged, 0);
    assert!(app.pending_cache_dirty);
    assert!(app.free_space_cache.is_dirty());
    assert_eq!(app.current_drive.letter(), 'C');
    assert!(app.running);
    assert!(!app.paused);
}

#[test]
fn new_app_unknown_drive_falls_back() {
    let app = App::new(2, 2, 500, 'z', 0);
    assert_eq!(app.current_drive.letter(), 'C');
    let app2 = App::new(2, 2, 500, 'f', 0);
    assert_eq!(app2.current_drive.letter(), 'F');
}

#[test]
fn file_fragment_contiguous() {
    let f = FileFragment::new(vec![3, 4, 5]);
    assert_eq!(f.size, 3);
    assert!(!f.is_fragmented);
    assert_eq!(f.first_cluster(), Some(3));
    assert_eq!(f.last_cluster(), Some(5));
}

#[test]
fn file_fragment_fragmented() {
    let f = FileFragment::new(vec![1, 3]);
    assert!(f.is_fragmented);
    let g = FileFragment::new(vec![9, 8]);
    assert!(g.is_fragmented);
}

#[test]
fn file_fragment_small() {
    let empty = FileFragment::new(vec![]);
    assert!(!empty.is_fragmented);
    assert_eq!(empty.size, 0);
    assert_eq!(empty.first_cluster(), None);
    assert_eq!(empty.last_cluster(), None);
    let one = FileFragment::new(vec![7]);
    assert!(!one.is_fragmented);
    assert_eq!(one.first_cluster(), Some(7));
    assert_eq!(one.last_cluster(), Some(7));
}
