use metmac::buffer::KeyEventBuffer;
use metmac::events::KeyEvent;

fn names(events: &[KeyEvent]) -> Vec<String> {
    events.iter().map(|e| e.key_name.clone()).collect()
}

/// Stores the batch in flight, as a store that never fails would.
fn store_in_flight(buffer: &mut KeyEventBuffer, store: &mut Vec<String>, now: u64) {
    store.extend(names(buffer.in_flight()));
    buffer.flush_succeeded(now);
}

/// Pushes one event and, if the buffer detaches a batch, stores it.
fn push_and_store(buffer: &mut KeyEventBuffer, store: &mut Vec<String>, key: &str, now: u64) -> bool {
    let event = KeyEvent::new(key.to_string(), now as i64);
    if buffer.push(event, now) {
        store_in_flight(buffer, store, now);
        true
    } else {
        false
    }
}

#[test]
fn test_buffer_flush_by_threshold() {
    let flush_threshold = 5;
    let flush_interval = 60; // long enough not to trigger by time
    let mut buffer = KeyEventBuffer::new(flush_threshold, flush_interval * 1000, 0);
    let mut store = Vec::new();
    for i in 0..5 {
        push_and_store(&mut buffer, &mut store, &format!("key{}", i), 10 * i as u64);
    }
    assert_eq!(store.len(), 5);
}

#[test]
fn test_buffer_flush_by_interval() {
    let flush_threshold = 10; // large enough not to trigger by threshold
    let flush_interval = 1;
    let mut buffer = KeyEventBuffer::new(flush_threshold, flush_interval * 1000, 0);
    let mut store = Vec::new();
    for i in 0..5 {
        push_and_store(&mut buffer, &mut store, &format!("key{}", i), i as u64);
    }
    // the next press comes after the interval has passed
    push_and_store(&mut buffer, &mut store, "key6", (flush_interval + 1) * 1000);
    assert_eq!(store.len(), 6);
}

#[test]
fn threshold_push_flushes_exactly_once() {
    let mut buffer = KeyEventBuffer::new(4, 60_000, 0);
    let mut store = Vec::new();
    let mut flushes = 0;
    for i in 0..4 {
        if push_and_store(&mut buffer, &mut store, &format!("k{}", i), 100 + i as u64) {
            flushes += 1;
        }
    }
    assert_eq!(flushes, 1);
    assert_eq!(store, vec!["k0", "k1", "k2", "k3"]);
    assert!(buffer.pending().is_empty());
    assert!(buffer.in_flight().is_empty());
}

#[test]
fn interval_flush_waits_for_next_push() {
    let mut buffer = KeyEventBuffer::new(10, 1_000, 0);
    let mut store = Vec::new();
    for i in 0..3 {
        assert!(!push_and_store(&mut buffer, &mut store, &format!("k{}", i), 10 * i as u64));
    }
    // the interval has run out, but nothing is written until a push comes
    assert!(buffer.should_flush(5_000));
    assert!(store.is_empty());
    assert!(push_and_store(&mut buffer, &mut store, "k3", 5_000));
    assert_eq!(store, vec!["k0", "k1", "k2", "k3"]);
}

#[test]
fn every_pushed_event_stored_once_in_order() {
    let mut buffer = KeyEventBuffer::new(3, 50, 0);
    let mut store = Vec::new();
    let mut expected = Vec::new();
    for i in 0..17u64 {
        let key = format!("k{}", i);
        expected.push(key.clone());
        push_and_store(&mut buffer, &mut store, &key, i * 7);
        if i % 5 == 0 && buffer.flush() {
            store_in_flight(&mut buffer, &mut store, i * 7);
        }
    }
    if buffer.flush() {
        store_in_flight(&mut buffer, &mut store, 200);
    }
    assert_eq!(store, expected);
    assert!(buffer.pending().is_empty());
}

#[test]
fn failed_flush_keeps_the_batch() {
    let mut buffer = KeyEventBuffer::new(100, 60_000, 0);
    for i in 0..3 {
        assert!(!buffer.push(KeyEvent::new(format!("k{}", i), i), 1));
    }
    assert!(buffer.flush());
    assert_eq!(names(buffer.in_flight()), vec!["k0", "k1", "k2"]);
    assert!(buffer.pending().is_empty());
    assert!(buffer.is_flushing());
    // a second flush while one is in flight detaches nothing
    assert!(!buffer.flush());
    // pushed while the write is in flight
    assert!(!buffer.push(KeyEvent::new("k3".to_string(), 3), 2));
    buffer.flush_failed();
    assert!(!buffer.is_flushing());
    assert!(buffer.in_flight().is_empty());
    assert_eq!(names(buffer.pending()), vec!["k0", "k1", "k2", "k3"]);
    assert!(buffer.flush());
    assert_eq!(names(buffer.in_flight()), vec!["k0", "k1", "k2", "k3"]);
    buffer.flush_succeeded(5);
    assert!(buffer.pending().is_empty());
    assert!(buffer.in_flight().is_empty());
    assert!(!buffer.flush());
}

#[test]
fn empty_flush_is_a_no_op() {
    let mut buffer = KeyEventBuffer::new(1, 1, 0);
    assert!(!buffer.flush());
    assert!(!buffer.is_flushing());
}

#[test]
fn huge_threshold_never_flushes_by_count() {
    let mut buffer = KeyEventBuffer::new(usize::MAX, u64::MAX, 0);
    for i in 0..50 {
        assert!(!buffer.push(KeyEvent::new("a".to_string(), i), i as u64));
    }
    assert_eq!(buffer.pending().len(), 50);
}

#[test]
fn should_flush_by_count_or_time() {
    let mut buffer = KeyEventBuffer::new(2, 1_000, 500);
    assert!(!buffer.should_flush(1_499));
    assert!(buffer.should_flush(1_500));
    // a clock read before the last flush counts as no time passed
    assert!(!buffer.should_flush(100));
    assert!(!buffer.push(KeyEvent::new("a".to_string(), 1), 600));
    assert!(!buffer.should_flush(600));
    assert!(buffer.push(KeyEvent::new("b".to_string(), 2), 700));
    assert_eq!(buffer.in_flight().len(), 2);
    buffer.flush_succeeded(700);
    assert!(!buffer.should_flush(1_699));
    assert!(buffer.should_flush(1_700));
}
