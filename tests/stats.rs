use metmac::events::KeyEvent;
use metmac::stats::{dashboard_stats, keyboard_stats, TOP_KEYS_LIMIT};

fn ev(key: &str, ts: i64) -> KeyEvent {
    KeyEvent::new(key.to_string(), ts)
}

#[test]
fn empty_store_stats_are_zero() {
    let stats = dashboard_stats(&Vec::new());
    assert_eq!(stats.total_today, 0);
    assert_eq!(stats.first_ts, 0);
    assert_eq!(stats.last_ts, 0);
    assert!(stats.top_keys.is_empty());
}

#[test]
fn keyboard_stats_counts_descending() {
    let events = vec![ev("a", 1), ev("a", 2), ev("b", 3)];
    let counts = keyboard_stats(&events);
    let got: Vec<(String, i64)> = counts.into_iter().map(|c| (c.key_name, c.count)).collect();
    assert_eq!(got, vec![("a".to_string(), 2), ("b".to_string(), 1)]);
}

#[test]
fn keyboard_stats_reorders_by_count() {
    let events = vec![ev("x", 1), ev("y", 2), ev("z", 3), ev("z", 4), ev("y", 5), ev("z", 6)];
    let got: Vec<(String, i64)> =
        keyboard_stats(&events).into_iter().map(|c| (c.key_name, c.count)).collect();
    assert_eq!(
        got,
        vec![("z".to_string(), 3), ("y".to_string(), 2), ("x".to_string(), 1)]
    );
}

#[test]
fn keyboard_stats_of_nothing_is_empty() {
    assert!(keyboard_stats(&Vec::new()).is_empty());
}

#[test]
fn dashboard_stats_first_last_and_total() {
    let events = vec![ev("a", 50), ev("b", 10), ev("a", 90), ev("c", 30)];
    let stats = dashboard_stats(&events);
    assert_eq!(stats.total_today, 4);
    assert_eq!(stats.first_ts, 10);
    assert_eq!(stats.last_ts, 90);
    assert_eq!(stats.top_keys[0], ("a".to_string(), 2));
    assert_eq!(stats.top_keys.len(), 3);
}

#[test]
fn dashboard_top_keys_are_capped() {
    let mut events = Vec::new();
    for k in 0..12 {
        for _ in 0..(k + 1) {
            events.push(ev(&format!("k{}", k), k as i64));
        }
    }
    let stats = dashboard_stats(&events);
    assert_eq!(stats.top_keys.len(), TOP_KEYS_LIMIT);
    assert_eq!(stats.top_keys[0], ("k11".to_string(), 12));
    assert_eq!(stats.top_keys[9], ("k2".to_string(), 3));
    assert_eq!(stats.total_today, 78);
}

#[test]
fn equal_counts_keep_first_press_order() {
    let events = vec![ev("b", 1), ev("a", 2), ev("c", 3), ev("a", 4), ev("b", 5)];
    let got: Vec<String> = keyboard_stats(&events).into_iter().map(|c| c.key_name).collect();
    assert_eq!(got, vec!["b", "a", "c"]);
}
