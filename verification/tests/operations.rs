use basevn_migro::operations::checkpoint::{Checkpoint, CheckpointManager};
use basevn_migro::operations::progress::ProgressTracker;

#[test]
fn test_checkpoint_creation() {
    let checkpoint = Checkpoint::new("test-job".to_string());
    assert_eq!(checkpoint.job_id, "test-job");
    assert_eq!(checkpoint.last_offset, 0);
    assert_eq!(checkpoint.total_processed, 0);
    assert_eq!(checkpoint.success_count, 0);
    assert_eq!(checkpoint.failed_count, 0);
    assert!(checkpoint.failed_record_ids.is_empty());
}

#[test]
fn test_checkpoint_update() {
    let mut checkpoint = Checkpoint::new("test-job".to_string());

    checkpoint.update(10, 8, 2, vec!["rec_1".to_string(), "rec_2".to_string()]);

    assert_eq!(checkpoint.last_offset, 10);
    assert_eq!(checkpoint.total_processed, 10);
    assert_eq!(checkpoint.success_count, 8);
    assert_eq!(checkpoint.failed_count, 2);
    assert_eq!(checkpoint.failed_record_ids.len(), 2);

    checkpoint.update(20, 9, 1, vec!["rec_3".to_string()]);

    assert_eq!(checkpoint.last_offset, 20);
    assert_eq!(checkpoint.total_processed, 20);
    assert_eq!(checkpoint.success_count, 17);
    assert_eq!(checkpoint.failed_count, 3);
    assert_eq!(checkpoint.failed_record_ids.len(), 3);
}

#[test]
fn checkpoint_update_appends_ids_in_order_and_stamps_time() {
    let mut checkpoint = Checkpoint::new("j".to_string());
    assert!(!checkpoint.timestamp.is_empty());
    checkpoint.update(3, 1, 2, vec!["a".into(), "b".into()]);
    checkpoint.update(4, 1, 0, vec![]);
    assert_eq!(checkpoint.failed_record_ids, vec!["a".to_string(), "b".to_string()]);
    assert_eq!(checkpoint.total_processed, checkpoint.success_count + checkpoint.failed_count);
    assert_eq!(checkpoint.last_offset, 4);
}

#[test]
fn checkpoint_manager_keeps_its_path() {
    let manager = CheckpointManager::new(".basevn-migro/checkpoints/j.json".to_string());
    assert_eq!(manager.path(), ".basevn-migro/checkpoints/j.json");
}

#[test]
fn test_progress_tracker_creation() {
    let tracker = ProgressTracker::new(100);
    assert_eq!(tracker.total(), 100);
    assert_eq!(tracker.processed(), 0);
    assert_eq!(tracker.success(), 0);
    assert_eq!(tracker.failed(), 0);
}

#[test]
fn test_progress_tracker_inc_success() {
    let mut tracker = ProgressTracker::new(100);
    tracker.inc_success();
    tracker.inc_success();

    assert_eq!(tracker.processed(), 2);
    assert_eq!(tracker.success(), 2);
    assert_eq!(tracker.failed(), 0);
}

#[test]
fn test_progress_tracker_inc_failure() {
    let mut tracker = ProgressTracker::new(100);
    tracker.inc_failure();

    assert_eq!(tracker.processed(), 1);
    assert_eq!(tracker.success(), 0);
    assert_eq!(tracker.failed(), 1);
}

#[test]
fn test_progress_tracker_record_batch() {
    let mut tracker = ProgressTracker::new(100);
    tracker.record_batch(8, 2);

    assert_eq!(tracker.processed(), 10);
    assert_eq!(tracker.success(), 8);
    assert_eq!(tracker.failed(), 2);
}

#[test]
fn progress_counts_add_up() {
    let mut tracker = ProgressTracker::new(5);
    tracker.record_batch(75, 5);
    tracker.inc_failure();
    tracker.inc_success();
    assert_eq!(tracker.processed(), tracker.success() + tracker.failed());
    assert_eq!(tracker.processed(), 82);
    let rate = (tracker.success() as f64 / tracker.processed() as f64) * 100.0;
    assert!(rate > 92.0 && rate < 93.0);
}

#[test]
fn test_progress_tracker_stats() {
    let mut tracker = ProgressTracker::new(100);
    tracker.record_batch(75, 5);

    assert_eq!(tracker.total(), 100);
    assert_eq!(tracker.processed(), 80);
    assert_eq!(tracker.success(), 75);
    assert_eq!(tracker.failed(), 5);
    assert_eq!(tracker.success() as f64 / tracker.processed() as f64 * 100.0, 93.75);
}
