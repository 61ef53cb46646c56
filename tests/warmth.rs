use infrared::aggregation::{compute_warmth, generate_alert_message, generate_alerts};
use infrared::model::{
    default_lookback_minutes, default_weight, default_window_minutes, LifeSignal, WarmthResponse,
    WarmthStatus, WindowAverage,
};
use infrared::storage::{Storage, StoreError};

fn avg(total: i64, windows: u32) -> WindowAverage {
    WindowAverage { total, windows }
}

fn signal(bucket: &str, timestamp: i64, weight: i32) -> LifeSignal {
    LifeSignal { bucket: bucket.to_string(), timestamp, weight }
}

fn now() -> i64 {
    chrono::Utc::now().timestamp()
}

#[test]
fn test_warmth_status_alive() {
    assert_eq!(WarmthStatus::from_activity(100, avg(100, 1)), WarmthStatus::Alive);
    assert_eq!(WarmthStatus::from_activity(80, avg(100, 1)), WarmthStatus::Alive);
    assert_eq!(WarmthStatus::from_activity(120, avg(100, 1)), WarmthStatus::Alive);
}

#[test]
fn test_warmth_status_stressed() {
    assert_eq!(WarmthStatus::from_activity(79, avg(100, 1)), WarmthStatus::Stressed);
    assert_eq!(WarmthStatus::from_activity(50, avg(100, 1)), WarmthStatus::Stressed);
    assert_eq!(WarmthStatus::from_activity(20, avg(100, 1)), WarmthStatus::Stressed);
}

#[test]
fn test_warmth_status_collapsing() {
    assert_eq!(WarmthStatus::from_activity(19, avg(100, 1)), WarmthStatus::Collapsing);
    assert_eq!(WarmthStatus::from_activity(1, avg(100, 1)), WarmthStatus::Collapsing);
}

#[test]
fn test_warmth_status_dead() {
    assert_eq!(WarmthStatus::from_activity(0, avg(100, 1)), WarmthStatus::Dead);
    assert_eq!(WarmthStatus::from_activity(0, avg(1, 1)), WarmthStatus::Dead);
}

#[test]
fn test_warmth_status_no_baseline() {
    assert_eq!(WarmthStatus::from_activity(0, avg(0, 0)), WarmthStatus::Alive);
    assert_eq!(WarmthStatus::from_activity(10, avg(0, 0)), WarmthStatus::Alive);
}

#[test]
fn status_uses_the_fractional_average() {
    // average 250 / 3 = 83.33...; 16 is below a fifth of it, 17 is not
    assert_eq!(WarmthStatus::from_activity(16, avg(250, 3)), WarmthStatus::Collapsing);
    assert_eq!(WarmthStatus::from_activity(17, avg(250, 3)), WarmthStatus::Stressed);
    // four fifths of 83.33... is 66.66...
    assert_eq!(WarmthStatus::from_activity(66, avg(250, 3)), WarmthStatus::Stressed);
    assert_eq!(WarmthStatus::from_activity(67, avg(250, 3)), WarmthStatus::Alive);
    // a non-positive total means no baseline
    assert_eq!(WarmthStatus::from_activity(0, avg(-5, 2)), WarmthStatus::Alive);
}

#[test]
fn defaults() {
    assert_eq!(default_weight(), 1);
    assert_eq!(default_window_minutes(), 10);
    assert_eq!(default_lookback_minutes(), 60);
}

#[test]
fn test_insert_and_query() {
    let mut storage = Storage::new();
    let now = now();
    storage.insert_life_signal(&signal("test-bucket", now, 5)).unwrap();
    let total = storage.query_bucket_window("test-bucket", 10, now + 1);
    assert_eq!(total, 5);
}

#[test]
fn test_multiple_signals() {
    let mut storage = Storage::new();
    let now = now();
    for i in 0..5 {
        storage.insert_life_signal(&signal("test-bucket", now - i * 60, 10)).unwrap();
    }
    let total = storage.query_bucket_window("test-bucket", 10, now + 1);
    assert_eq!(total, 50);
}

#[test]
fn test_get_last_seen() {
    let mut storage = Storage::new();
    assert!(storage.get_last_seen("test-bucket").is_none());
    let now = now();
    storage.insert_life_signal(&signal("test-bucket", now, 1)).unwrap();
    assert!(storage.get_last_seen("test-bucket").is_some());
}

#[test]
fn window_edges_are_inclusive() {
    let mut storage = Storage::new();
    let now = 1_700_000_000;
    storage.insert_life_signal(&signal("b", now - 600, 1)).unwrap();
    storage.insert_life_signal(&signal("b", now, 2)).unwrap();
    storage.insert_life_signal(&signal("b", now - 601, 4)).unwrap();
    storage.insert_life_signal(&signal("b", now + 1, 8)).unwrap();
    storage.insert_life_signal(&signal("other", now, 16)).unwrap();
    assert_eq!(storage.query_bucket_window("b", 10, now), 3);
    assert_eq!(storage.len(), 5);
}

#[test]
fn round_trip_signal_then_window_sum() {
    let mut storage = Storage::new();
    let now = now();
    storage.insert_life_signal(&signal("b", now, 5)).unwrap();
    assert_eq!(storage.query_bucket_window("b", 10, now + 1), 5);
}

#[test]
fn recent_average_counts_only_bins_with_data() {
    let mut storage = Storage::new();
    // epoch-aligned 600 s bins; now sits at the start of a bin
    let now: i64 = 600 * 1000;
    // history span is [now - 4200, now - 600)
    storage.insert_life_signal(&signal("b", now - 700, 30)).unwrap();
    storage.insert_life_signal(&signal("b", now - 650, 10)).unwrap(); // same bin as above
    storage.insert_life_signal(&signal("b", now - 3000, 20)).unwrap();
    storage.insert_life_signal(&signal("b", now - 4201, 1000)).unwrap(); // before the span
    storage.insert_life_signal(&signal("b", now - 600, 1000)).unwrap(); // current window
    let a = storage.compute_recent_average("b", 10, 6, now);
    assert_eq!(a, WindowAverage { total: 60, windows: 2 });
}

#[test]
fn recent_average_is_empty_without_history() {
    let storage = Storage::new();
    let a = storage.compute_recent_average("b", 10, 6, 1_700_000_000);
    assert_eq!(a, WindowAverage { total: 0, windows: 0 });
}

#[test]
fn known_and_active_buckets() {
    let mut storage = Storage::new();
    let now = 1_700_000_000;
    storage.insert_life_signal(&signal("a", now - 7200, 1)).unwrap();
    storage.insert_life_signal(&signal("b", now - 60, 1)).unwrap();
    storage.insert_life_signal(&signal("a", now - 30, 1)).unwrap();
    storage.insert_life_signal(&signal("c", now - 9000, 1)).unwrap();
    assert_eq!(storage.get_all_known_buckets(), vec!["a".to_string(), "b".to_string(), "c".to_string()]);
    assert_eq!(storage.get_active_buckets(60, now), vec!["b".to_string(), "a".to_string()]);
    assert_eq!(storage.get_last_seen("a"), Some(now - 30));
}

#[test]
fn store_error_is_comparable() {
    assert_eq!(StoreError::Full, StoreError::Full);
}

#[test]
fn test_compute_warmth_no_data() {
    let storage = Storage::new();
    let warmth = compute_warmth(&storage, "empty-bucket", 10, now());
    assert_eq!(warmth.bucket, "empty-bucket");
    assert_eq!(warmth.current_window_total, 0);
    assert_eq!(warmth.recent_average, WindowAverage { total: 0, windows: 0 });
    assert_eq!(warmth.status, WarmthStatus::Alive);
}

#[test]
fn test_compute_warmth_alive() {
    let mut storage = Storage::new();
    let now = now();
    for i in 1..=6i64 {
        storage.insert_life_signal(&signal("test-bucket", now - (i * 10 + 5) * 60, 100)).unwrap();
    }
    storage.insert_life_signal(&signal("test-bucket", now - 5 * 60, 100)).unwrap();
    let warmth = compute_warmth(&storage, "test-bucket", 10, now);
    assert_eq!(warmth.status, WarmthStatus::Alive);
    assert_eq!(warmth.current_window_total, 100);
    assert_eq!(warmth.recent_average, WindowAverage { total: 600, windows: 6 });
}

#[test]
fn repeated_warmth_queries_agree() {
    let mut storage = Storage::new();
    let now = 1_700_000_000;
    storage.insert_life_signal(&signal("z", now - 1000, 40)).unwrap();
    storage.insert_life_signal(&signal("z", now - 10, 3)).unwrap();
    let a = compute_warmth(&storage, "z", 10, now);
    let b = compute_warmth(&storage, "z", 10, now);
    assert_eq!(a.current_window_total, b.current_window_total);
    assert_eq!(a.recent_average, b.recent_average);
    assert_eq!(a.status, b.status);
    assert_eq!(a.status, WarmthStatus::Collapsing);
}

#[test]
fn test_generate_alerts_empty() {
    let storage = Storage::new();
    let alerts = generate_alerts(&storage, 60, now());
    assert!(alerts.alerts.is_empty());
    assert_eq!(alerts.lookback_minutes, 60);
}

#[test]
fn alerts_for_dead_and_collapsing_buckets() {
    let mut storage = Storage::new();
    let now: i64 = 600 * 2000;
    // "dead": history only
    storage.insert_life_signal(&signal("dead", now - 1200, 50)).unwrap();
    // "weak": history 100, current 5
    storage.insert_life_signal(&signal("weak", now - 1200, 100)).unwrap();
    storage.insert_life_signal(&signal("weak", now - 10, 5)).unwrap();
    // "fine": history 10, current 10
    storage.insert_life_signal(&signal("fine", now - 1200, 10)).unwrap();
    storage.insert_life_signal(&signal("fine", now - 10, 10)).unwrap();
    let r = generate_alerts(&storage, 60, now);
    assert_eq!(r.lookback_minutes, 60);
    assert_eq!(r.alerts.len(), 2);
    assert_eq!(r.alerts[0].bucket, "dead");
    assert_eq!(r.alerts[0].status, WarmthStatus::Dead);
    assert_eq!(r.alerts[0].last_seen_timestamp, Some(now - 1200));
    assert_eq!(
        r.alerts[0].message,
        "CRITICAL: Bucket 'dead' has gone completely silent. No signals received in the current window. Historical average was 50.0 signals per window."
    );
    assert_eq!(r.alerts[1].bucket, "weak");
    assert_eq!(r.alerts[1].status, WarmthStatus::Collapsing);
    assert_eq!(
        r.alerts[1].message,
        "WARNING: Bucket 'weak' is collapsing. Current activity (5) is only 5% of recent average (100.0)."
    );
}

#[test]
fn alert_window_is_capped_at_ten_minutes() {
    let mut storage = Storage::new();
    let now: i64 = 600 * 3000;
    // 20 minutes ago: inside a 60-minute window, but history for a 10-minute one
    storage.insert_life_signal(&signal("q", now - 1200, 7)).unwrap();
    let r = generate_alerts(&storage, 60, now);
    assert_eq!(r.alerts.len(), 1);
    assert_eq!(r.alerts[0].status, WarmthStatus::Dead);
    assert_eq!(r.lookback_minutes, 60);
}

fn warmth(bucket: &str, current: i64, total: i64, windows: u32, status: WarmthStatus) -> WarmthResponse {
    WarmthResponse {
        bucket: bucket.to_string(),
        window_minutes: 10,
        current_window_total: current,
        recent_average: avg(total, windows),
        status,
    }
}

#[test]
fn test_alert_message_dead() {
    let w = warmth("zone-a", 0, 50, 1, WarmthStatus::Dead);
    let message = generate_alert_message("zone-a", WarmthStatus::Dead, &w);
    assert!(message.contains("CRITICAL"));
    assert!(message.contains("zone-a"));
    assert!(message.contains("silent"));
}

#[test]
fn test_alert_message_collapsing() {
    let w = warmth("zone-b", 5, 100, 1, WarmthStatus::Collapsing);
    let message = generate_alert_message("zone-b", WarmthStatus::Collapsing, &w);
    assert!(message.contains("WARNING"));
    assert!(message.contains("zone-b"));
    assert!(message.contains("collapsing"));
}

#[test]
fn alert_message_rounds_average_and_percentage() {
    // average 250 / 3 = 83.33..., current 12 is 14.4% of it
    let w = warmth("x", 12, 250, 3, WarmthStatus::Collapsing);
    assert_eq!(
        generate_alert_message("x", WarmthStatus::Collapsing, &w),
        "WARNING: Bucket 'x' is collapsing. Current activity (12) is only 14% of recent average (83.3)."
    );
    // 0.25 rounds half up to 0.3
    let d = warmth("y", 0, 1, 4, WarmthStatus::Dead);
    assert!(generate_alert_message("y", WarmthStatus::Dead, &d).ends_with("was 0.3 signals per window."));
    let a = warmth("z", 9, 9, 1, WarmthStatus::Alive);
    assert_eq!(generate_alert_message("z", WarmthStatus::Alive, &a), "Bucket 'z' status: Alive");
}
