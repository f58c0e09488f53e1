use liveview::cleanup::{
    cleanup_delays, remaining_media_ids, run_cleanup, search_after, stray_media_ids,
    CleanupCommand, CleanupWindow, CleanupWorker, MediaRecord, CLEANUP_SETTLE_SECONDS,
    CLEANUP_STEPS,
};

fn window(recording: bool) -> CleanupWindow {
    CleanupWindow { camera_id: 9, started_at: 1_000, is_recording_session: recording }
}

#[test]
fn delay_schedule_is_fixed() {
    assert_eq!(cleanup_delays(), vec![5, 10, 15, 20, 25, 30]);
    assert_eq!(CLEANUP_STEPS, 6);
    assert_eq!(CLEANUP_SETTLE_SECONDS, 4);
}

#[test]
fn search_window_reaches_back_a_minute() {
    assert_eq!(search_after(&window(false)), 940);
}

#[test]
fn two_strays_confirmed_within_two_steps() {
    // Two stray recordings; the backend deletes them, so the
    // verification query comes back empty: confirmed after one
    // step, well within two.
    let mut queries = vec![vec![101, 102], vec![]];
    let (steps, confirmed, deleted) = run_cleanup(&window(false), &mut queries);
    assert!(confirmed);
    assert!(steps <= 2);
    assert_eq!(deleted, vec![vec![101, 102]]);
}

#[test]
fn stubborn_backend_exhausts_schedule_silently() {
    // The backend never empties the listing: all six steps run and
    // the worker stops without confirming and without failing.
    let mut queries: Vec<Vec<i64>> = (0..12).map(|_| vec![7]).collect();
    let (steps, confirmed, deleted) = run_cleanup(&window(false), &mut queries);
    assert_eq!(steps, 6);
    assert!(!confirmed);
    assert_eq!(deleted.len(), 6);
}

#[test]
fn empty_queries_step_through() {
    // Nothing is ever found: each step consumes one query and
    // deletes nothing.
    let mut queries: Vec<Vec<i64>> = (0..6).map(|_| Vec::new()).collect();
    let (steps, confirmed, deleted) = run_cleanup(&window(false), &mut queries);
    assert_eq!(steps, 6);
    assert!(!confirmed);
    assert!(deleted.is_empty());
}

#[test]
fn recording_session_is_left_alone() {
    let mut queries = vec![vec![101]];
    let (steps, confirmed, deleted) = run_cleanup(&window(true), &mut queries);
    assert_eq!(steps, 0);
    assert!(!confirmed);
    assert!(deleted.is_empty());
    assert_eq!(queries, vec![vec![101]]); // nothing consumed
}

#[test]
fn worker_walks_the_whole_schedule() {
    let mut worker = CleanupWorker::new();
    let mut delays: Vec<u64> = Vec::new();
    while let Some(d) = worker.next_delay() {
        delays.push(d);
    }
    assert_eq!(delays, cleanup_delays());
    assert!(worker.next_delay().is_none()); // stays exhausted
}

#[test]
fn worker_decides_per_listing() {
    let worker = CleanupWorker::new();
    let nothing: Vec<i64> = Vec::new();
    assert!(matches!(worker.on_listing(&nothing), CleanupCommand::Proceed));
    match worker.on_listing(&vec![7]) {
        CleanupCommand::DeleteThenVerify { settle_seconds } => {
            assert_eq!(settle_seconds, CLEANUP_SETTLE_SECONDS);
        }
        _ => panic!("a non-empty listing must be deleted and verified"),
    }
    assert!(worker.confirmed(&nothing));
    assert!(!worker.confirmed(&vec![1]));
}

#[test]
fn stray_filter_matches_any_device_field() {
    let items = vec![
        MediaRecord { id: 1, device_id: Some(9), camera_id: None, sensor_id: None, created_at: Some(950) },
        MediaRecord { id: 2, device_id: None, camera_id: Some(9), sensor_id: None, created_at: Some(960) },
        MediaRecord { id: 3, device_id: None, camera_id: None, sensor_id: Some(9), created_at: Some(970) },
        MediaRecord { id: 4, device_id: Some(8), camera_id: None, sensor_id: None, created_at: Some(980) },
        MediaRecord { id: 5, device_id: Some(9), camera_id: None, sensor_id: None, created_at: Some(900) },
        MediaRecord { id: 6, device_id: Some(9), camera_id: None, sensor_id: None, created_at: None },
    ];
    // Since 940: other cameras, older items, and undated items are
    // all left alone.
    assert_eq!(stray_media_ids(&items, 9, 940), vec![1, 2, 3]);
}

#[test]
fn remaining_ids_after_deletion() {
    let requested = vec![1, 2, 3, 4];
    let listed = vec![4, 9, 2];
    assert_eq!(remaining_media_ids(&requested, &listed), vec![2, 4]);
    let empty: Vec<i64> = Vec::new();
    assert_eq!(remaining_media_ids(&requested, &empty), empty);
}
