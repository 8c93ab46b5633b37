use defrag_simulator_rs::engine::{App, StatusKind, FINISH_WAIT_TICKS, INIT_DURATION_TICKS};
use defrag_simulator_rs::models::{ClusterState, DefragPhase, FileDefragPhase};

/// Call `update` with a generous clock step until the phase is reached.
fn run_to_phase(app: &mut App, target: DefragPhase, now: &mut u64, bound: usize) {
    let mut i = 0;
    while app.phase != target {
        *now += 10_000;
        app.update(*now);
        i += 1;
        assert!(i < bound, "phase {:?} not reached within {} ticks", target, bound);
    }
}

#[test]
fn initializing_lasts_twenty_ticks() {
    let mut app = App::new(4, 4, 500, 'C', 0);
    let mut now = 0u64;
    for tick in 1..=INIT_DURATION_TICKS {
        now += 100;
        app.update(now);
        assert_eq!(app.phase, DefragPhase::Initializing);
        assert_eq!(app.animation_step, tick);
    }
    now += 100;
    app.update(now);
    assert_eq!(app.phase, DefragPhase::Analyzing);
    assert_eq!(app.animation_step, 0);
}

#[test]
fn analyzing_emits_seek_every_third_tick() {
    let mut app = App::new(4, 4, 500, 'C', 0);
    let mut now = 0u64;
    run_to_phase(&mut app, DefragPhase::Analyzing, &mut now, 100);
    let mut seeks = 0;
    let mut ticks = 0;
    while app.phase == DefragPhase::Analyzing && ticks < 100 {
        let step_before = app.animation_step;
        now += 100;
        let cues = app.update(now);
        if app.phase == DefragPhase::Analyzing || app.animation_step == 0 {
            assert_eq!(cues.play_seek, (step_before + 1) % 3 == 0);
        }
        if cues.play_seek {
            seeks += 1;
        }
        ticks += 1;
    }
    assert!(seeks >= 1);
    assert_eq!(app.phase, DefragPhase::Defragmenting);
}

#[test]
fn no_free_region_completes_cluster_immediately() {
    // Full fill: no Unused cluster anywhere, so every operation takes the
    // immediate-completion path.
    let mut app = App::new(4, 4, 1000, 'C', 0);
    assert_eq!(app.count_clusters(ClusterState::Unused), 0);
    let mut now = 0u64;
    run_to_phase(&mut app, DefragPhase::Defragmenting, &mut now, 200);
    let pending_before = app.count_clusters(ClusterState::Pending);
    assert!(pending_before > 0);
    let defragged_before = app.stats.clusters_defragged;
    let reading_before = app.count_clusters(ClusterState::Reading);
    let writing_before = app.count_clusters(ClusterState::Writing);
    now += 10_000;
    let cues = app.update(now);
    assert_eq!(app.stats.clusters_defragged, defragged_before + 1);
    assert_eq!(app.count_clusters(ClusterState::Pending), pending_before - 1);
    assert_eq!(app.count_clusters(ClusterState::Reading), reading_before);
    assert_eq!(app.count_clusters(ClusterState::Writing), writing_before);
    assert_eq!(app.read_pos, None);
    assert!(app.current_file_read_progress.is_none());
    assert!(cues.play_seek);
    assert!(cues.play_write);
}

#[test]
fn defragged_counter_is_monotonic_and_bounded() {
    let mut app = App::new(6, 6, 650, 'F', 0);
    let mut now = 0u64;
    let mut last = 0usize;
    for _ in 0..2000 {
        now += 10_000;
        app.update(now);
        assert!(app.stats.clusters_defragged >= last);
        assert!(app.stats.clusters_defragged <= app.stats.total_to_defrag);
        last = app.stats.clusters_defragged;
        if !app.running {
            break;
        }
    }
    assert_eq!(app.phase, DefragPhase::Finished);
}

#[test]
fn run_terminates_and_signals_stop() {
    let mut app = App::new(4, 4, 1000, 'C', 0);
    assert!(!app.demo_mode);
    let mut now = 0u64;
    let mut ticks = 0usize;
    while app.running {
        now += 10_000;
        app.update(now);
        ticks += 1;
        assert!(ticks < 2000, "no termination within {} ticks", ticks);
    }
    assert_eq!(app.phase, DefragPhase::Finished);
    // The whole run fits in a tick budget linear in the cluster count plus
    // the fixed phase waits.
    let budget = 16 * 8 + INIT_DURATION_TICKS as usize + FINISH_WAIT_TICKS as usize + 60;
    assert!(ticks <= budget, "took {} ticks", ticks);
}

#[test]
fn pause_toggle_twice_restores_state() {
    let mut app = App::new(4, 4, 500, 'C', 0);
    app.force_analyze();
    assert_eq!(app.phase, DefragPhase::Analyzing);
    let paused0 = app.paused;
    let phase0 = app.phase;
    let stats0 = app.stats;
    app.toggle_pause();
    assert_eq!(app.paused, !paused0);
    app.toggle_pause();
    assert_eq!(app.paused, paused0);
    assert_eq!(app.phase, phase0);
    assert_eq!(app.stats, stats0);
}

#[test]
fn pause_ignored_outside_active_phases() {
    let mut app = App::new(4, 4, 500, 'C', 0);
    assert_eq!(app.phase, DefragPhase::Initializing);
    app.toggle_pause();
    assert!(!app.paused);
}

#[test]
fn restart_after_finished_resets_everything() {
    let mut app = App::new(4, 4, 1000, 'C', 0);
    let mut now = 0u64;
    run_to_phase(&mut app, DefragPhase::Finished, &mut now, 2000);
    assert!(app.stats.clusters_defragged > 0);
    app.restart(777);
    assert_eq!(app.stats.clusters_defragged, 0);
    assert_eq!(app.phase, DefragPhase::Initializing);
    assert!(app.pending_cache_dirty);
    assert!(app.free_space_cache.is_dirty());
    assert_eq!(app.stats.start_time_ms, 777);
    assert_eq!(app.read_pos, None);
    assert_eq!(app.write_pos, None);
    assert!(app.current_filename.is_none());
    assert_eq!(
        app.stats.total_to_defrag,
        app.count_clusters(ClusterState::Pending) + 2
    );
}

#[test]
fn demo_mode_restarts_after_half_wait() {
    let mut app = App::new(4, 4, 1000, 'C', 0);
    app.toggle_demo_mode();
    assert!(app.demo_mode);
    let mut now = 0u64;
    run_to_phase(&mut app, DefragPhase::Finished, &mut now, 2000);
    run_to_phase(&mut app, DefragPhase::Initializing, &mut now, 2000);
    assert_eq!(app.stats.clusters_defragged, 0);
    assert!(app.running);
}

#[test]
fn in_flight_file_walks_through_substates() {
    // Half fill leaves free regions, so operations go through the
    // read/write cycle.
    let mut app = App::new(8, 8, 400, 'C', 0);
    let mut now = 0u64;
    run_to_phase(&mut app, DefragPhase::Defragmenting, &mut now, 400);
    let mut saw_reading = false;
    let mut saw_read_cue = false;
    let mut saw_write_cue = false;
    for _ in 0..200 {
        now += 10_000;
        let cues = app.update(now);
        saw_read_cue |= cues.play_read;
        saw_write_cue |= cues.play_write;
        if app.current_file_read_progress == Some(FileDefragPhase::Reading) {
            saw_reading = true;
            assert!(app.read_pos.is_some());
            assert!(app.write_pos.is_some());
        }
        if app.phase == DefragPhase::Finished {
            break;
        }
    }
    assert!(saw_reading);
    assert!(saw_read_cue);
    assert!(saw_write_cue);
}

#[test]
fn waiting_tick_changes_nothing_but_status() {
    let mut app = App::new(8, 8, 400, 'C', 0);
    let mut now = 0u64;
    run_to_phase(&mut app, DefragPhase::Defragmenting, &mut now, 400);
    // Start an operation whose completion lies in the future.
    let mut started = false;
    for _ in 0..200 {
        now += 10_000;
        app.update(now);
        if app.current_file_read_progress == Some(FileDefragPhase::Reading) {
            started = true;
            break;
        }
        assert_eq!(app.phase, DefragPhase::Defragmenting);
    }
    assert!(started);
    let grid_before = app.clusters.clone();
    let defragged_before = app.stats.clusters_defragged;
    // A tick long before the scheduled completion only animates.
    let cues = app.update(now + 1);
    assert_eq!(app.status, StatusKind::Waiting);
    assert_eq!(app.clusters, grid_before);
    assert_eq!(app.stats.clusters_defragged, defragged_before);
    assert!(!cues.play_seek && !cues.play_read && !cues.play_write);
}

#[test]
fn empty_grid_stays_idle() {
    let mut app = App::new(0, 5, 650, 'C', 0);
    assert_eq!(app.clusters.len(), 0);
    for _ in 0..50 {
        let cues = app.update(1_000_000);
        assert_eq!(app.phase, DefragPhase::Initializing);
        assert_eq!(app.animation_step, 0);
        assert!(app.running);
        assert!(!cues.play_seek && !cues.play_read && !cues.play_write);
    }
}

#[test]
fn progress_percent_formula() {
    let mut app = App::new(4, 4, 500, 'C', 0);
    app.clusters = vec![ClusterState::Used; 16];
    app.stats.total_to_defrag = 10;
    app.stats.clusters_defragged = 5;
    assert_eq!(app.progress_percent(), 50);
    app.stats.total_to_defrag = 0;
    app.stats.clusters_defragged = 0;
    assert_eq!(app.progress_percent(), 100);
    app.stats.total_to_defrag = 3;
    app.stats.clusters_defragged = 1;
    assert_eq!(app.progress_percent(), 33);
}

#[test]
fn estimated_time_remaining_formula() {
    let mut app = App::new(4, 4, 500, 'C', 0);
    app.clusters = vec![ClusterState::Used; 16];
    app.stats.total_to_defrag = 10;
    app.stats.clusters_defragged = 0;
    app.stats.start_time_ms = 0;
    app.phase = DefragPhase::Defragmenting;
    assert_eq!(app.estimated_time_remaining(1000), None);
    app.stats.clusters_defragged = 5;
    // Five clusters in one second leaves five more: one more second.
    assert_eq!(app.estimated_time_remaining(1000), Some(1000));
    app.phase = DefragPhase::Finished;
    assert_eq!(app.estimated_time_remaining(1000), None);
    app.phase = DefragPhase::Defragmenting;
    app.stats.clusters_defragged = 10;
    assert_eq!(app.estimated_time_remaining(1000), Some(0));
}

#[test]
fn fragmentation_percent_formula() {
    let mut app = App::new(2, 2, 0, 'C', 0);
    app.clusters = vec![
        ClusterState::Pending,
        ClusterState::Used,
        ClusterState::Used,
        ClusterState::Unused,
    ];
    assert_eq!(app.fragmentation_percent(), 33);
    app.clusters = vec![ClusterState::Unused; 4];
    assert_eq!(app.fragmentation_percent(), 0);
}

#[test]
fn status_text_forms() {
    let mut app = App::new(2, 2, 500, 'C', 0);
    assert_eq!(app.status_text(), "Initializing...");
    app.status = StatusKind::ReadingFile;
    app.current_filename = Some("IO.SYS".to_string());
    assert_eq!(app.status_text(), "Reading IO.SYS...");
    app.status = StatusKind::Waiting;
    app.current_filename = None;
    app.current_file_read_progress = None;
    app.animation_step = 3;
    assert_eq!(app.status_text(), "Processing file...");
    app.current_file_read_progress = Some(FileDefragPhase::Writing);
    app.current_filename = Some("DOOM\\DOOM.WAD".to_string());
    app.animation_step = 2;
    assert_eq!(app.status_text(), "Writing DOOM\\DOOM.WAD..");
    app.paused = true;
    assert_eq!(app.status_text(), "Paused");
}

#[test]
fn request_stop_clears_running() {
    let mut app = App::new(2, 2, 500, 'C', 0);
    assert!(app.running);
    app.request_stop();
    assert!(!app.running);
}
