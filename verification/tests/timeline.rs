use sentinel::clock::{clock_now, Clock};
use sentinel::timeline::Timeline;

const SEC: u64 = 1_000_000_000;

#[derive(Debug, Clone)]
struct TestEvent {
    ts: u64,
    value: i32,
}

impl TestEvent {
    fn new(value: i32) -> Self {
        Self { ts: clock_now(), value }
    }

    fn with_time(value: i32, ts: u64) -> Self {
        Self { ts, value }
    }
}

#[test]
fn new_timeline_is_empty() {
    let t: Timeline<TestEvent> = Timeline::new(100, 60 * SEC);
    assert!(t.is_empty());
    assert_eq!(t.len(), 0);
    assert_eq!(t.total_count(), 0);
}

#[test]
fn push_increments_counts() {
    let mut t = Timeline::new(100, 60 * SEC);
    t.push(TestEvent::new(1));
    t.push(TestEvent::new(2));
    t.push(TestEvent::new(3));

    assert_eq!(t.len(), 3);
    assert_eq!(t.total_count(), 3);
    assert!(!t.is_empty());
}

#[test]
fn push_respects_max_events() {
    let mut t = Timeline::new(3, 60 * SEC);
    for i in 0..10 {
        t.push(TestEvent::new(i));
    }
    assert_eq!(t.len(), 3);
    assert_eq!(t.total_count(), 10);
}

#[test]
fn eviction_removes_oldest() {
    let mut t = Timeline::new(3, 60 * SEC);
    t.push(TestEvent::new(1));
    t.push(TestEvent::new(2));
    t.push(TestEvent::new(3));
    t.push(TestEvent::new(4));

    let all: Vec<&TestEvent> = t.events_since_last_action();
    let values: Vec<i32> = all.iter().map(|e| e.value).collect();
    assert_eq!(values, vec![2, 3, 4]);
}

#[test]
fn mark_action_start_and_events_since() {
    let mut t = Timeline::new(100, 60 * SEC);
    t.push(TestEvent::new(1));
    t.push(TestEvent::new(2));

    t.mark_action_start();

    t.push(TestEvent::new(3));
    t.push(TestEvent::new(4));

    let since = t.events_since_last_action();
    let values: Vec<i32> = since.iter().map(|e| e.value).collect();
    assert_eq!(values, vec![3, 4]);
}

#[test]
fn events_since_last_action_without_marker_returns_all() {
    let mut t = Timeline::new(100, 60 * SEC);
    t.push(TestEvent::new(1));
    t.push(TestEvent::new(2));

    let since = t.events_since_last_action();
    assert_eq!(since.len(), 2);
}

#[test]
fn action_index_adjusts_on_eviction() {
    let mut t = Timeline::new(3, 60 * SEC);
    t.push(TestEvent::new(1));
    t.mark_action_start();
    t.push(TestEvent::new(2));
    t.push(TestEvent::new(3));
    t.push(TestEvent::new(4));

    let since = t.events_since_last_action();
    assert!(!since.is_empty());
}

#[test]
fn gc_removes_old_events() {
    let mut t = Timeline::new(100, SEC);
    let old_time = clock_now() - 10 * SEC;
    let recent_time = clock_now();

    t.push(TestEvent::with_time(1, old_time));
    t.push(TestEvent::with_time(2, old_time));
    t.push(TestEvent::with_time(3, recent_time));

    assert_eq!(t.len(), 3);

    t.gc(&Clock::start_now(), |e| e.ts);

    assert_eq!(t.len(), 1);
    let remaining: Vec<&TestEvent> = t.events_since_last_action();
    assert_eq!(remaining[0].value, 3);
}

#[test]
fn gc_adjusts_action_index() {
    let mut t = Timeline::new(100, SEC);
    let old_time = clock_now() - 10 * SEC;

    t.push(TestEvent::with_time(1, old_time));
    t.push(TestEvent::with_time(2, old_time));
    t.mark_action_start();
    t.push(TestEvent::new(3));

    t.gc(&Clock::start_now(), |e| e.ts);

    let since = t.events_since_last_action();
    assert_eq!(since.len(), 1);
    assert_eq!(since[0].value, 3);
}

#[test]
fn gc_clears_action_index_if_all_before_it_removed() {
    let mut t = Timeline::new(100, SEC);
    let old_time = clock_now() - 10 * SEC;

    t.push(TestEvent::with_time(1, old_time));
    t.mark_action_start();
    t.push(TestEvent::with_time(2, old_time));
    t.push(TestEvent::new(3));

    t.gc(&Clock::start_now(), |e| e.ts);

    let since = t.events_since_last_action();
    assert_eq!(since.len(), 1);
}

#[test]
fn multiple_action_markers() {
    let mut t = Timeline::new(100, 60 * SEC);
    t.push(TestEvent::new(1));
    t.mark_action_start();
    t.push(TestEvent::new(2));
    t.mark_action_start();
    t.push(TestEvent::new(3));

    let since = t.events_since_last_action();
    let values: Vec<i32> = since.iter().map(|e| e.value).collect();
    assert_eq!(values, vec![3]);
}

#[test]
fn gc_at_stops_at_first_recent_event() {
    let mut t = Timeline::new(100, 5);
    t.push(TestEvent::with_time(1, 10));
    t.push(TestEvent::with_time(2, 100));
    t.push(TestEvent::with_time(3, 10));
    t.gc_at(50, |e| e.ts);
    // The cutoff is 45: event 1 goes, event 2 stops the sweep, event 3 stays.
    let values: Vec<i32> = t.events_since_last_action().iter().map(|e| e.value).collect();
    assert_eq!(values, vec![2, 3]);
}

#[test]
fn push_after_mark_is_reported() {
    let mut t = Timeline::new(2, 60 * SEC);
    t.push(TestEvent::new(1));
    t.push(TestEvent::new(2));
    t.mark_action_start();
    assert!(t.events_since_last_action().is_empty());
    t.push(TestEvent::new(3));
    let values: Vec<i32> = t.events_since_last_action().iter().map(|e| e.value).collect();
    assert_eq!(values, vec![3]);
}

#[test]
fn reported_events_follow_the_push_and_mark_history() {
    let mut tl: Timeline<i32> = Timeline::new(3, 60 * SEC);
    tl.push(1);
    tl.push(2);
    tl.mark_action_start();
    tl.push(3);
    tl.push(4);
    let since: Vec<i32> = tl.events_since_last_action().into_iter().copied().collect();
    assert_eq!(since, vec![3, 4]);
    tl.push(5);
    tl.push(6);
    let since: Vec<i32> = tl.events_since_last_action().into_iter().copied().collect();
    assert_eq!(since, vec![4, 5, 6]);
}
