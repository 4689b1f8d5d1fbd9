use sentinel::clock::{clock_now, Clock};
use sentinel::stability::{StabilityState, StabilityTracker};

const MS: u64 = 1_000_000;

fn make_tracker_with_quiet(actionable_ms: u64, settled_ms: u64, max_ms: u64) -> StabilityTracker {
    let mut t = StabilityTracker::new(&Clock::start_now());
    t.actionable_quiet_ms = actionable_ms;
    t.fully_settled_ms = settled_ms;
    t.max_wait_ms = max_ms;
    t
}

fn quiet_since(t: &mut StabilityTracker, past: u64) {
    t.last_dom_mutation = past;
    t.last_layout_shift = past;
    t.last_style_change = past;
    t.last_meaningful_network = past;
    t.last_animation_update = past;
}

#[test]
fn begin_action_then_check_returns_active() {
    let mut tracker = StabilityTracker::new(&Clock::start_now());
    let now = clock_now();
    tracker.begin_action(now);
    // Immediately after begin_action, should be Active (quiet streak is 0)
    let state = tracker.check(&Clock::start_now(), 0, 0);
    assert_eq!(state, StabilityState::Active);
}

#[test]
fn returns_active_when_no_action_started() {
    let mut tracker = StabilityTracker::new(&Clock::start_now());
    let state = tracker.check(&Clock::start_now(), 0, 0);
    assert_eq!(state, StabilityState::Active);
}

#[test]
fn returns_active_with_pending_requests() {
    let mut tracker = StabilityTracker::new(&Clock::start_now());
    tracker.begin_action(clock_now());
    let state = tracker.check(&Clock::start_now(), 3, 0);
    assert_eq!(state, StabilityState::Active);
}

#[test]
fn returns_active_with_active_animations() {
    let mut tracker = StabilityTracker::new(&Clock::start_now());
    tracker.begin_action(clock_now());
    let state = tracker.check(&Clock::start_now(), 0, 2);
    assert_eq!(state, StabilityState::Active);
}

#[test]
fn returns_active_during_navigation() {
    let mut tracker = StabilityTracker::new(&Clock::start_now());
    let now = clock_now();
    tracker.on_navigation(now);
    let state = tracker.check(&Clock::start_now(), 0, 0);
    assert_eq!(state, StabilityState::Active);
}

#[test]
fn actionable_quiet_after_sufficient_wait() {
    let mut tracker = make_tracker_with_quiet(5, 5000, 60000);
    let past = clock_now() - 500 * MS;
    quiet_since(&mut tracker, past);
    tracker.wait_start = Some(past);
    tracker.last_quiet_check = past;

    let s1 = tracker.check(&Clock::start_now(), 0, 0);
    tracker.last_quiet_check = clock_now() - 200 * MS;
    let s2 = tracker.check(&Clock::start_now(), 0, 0);

    assert!(
        s2 == StabilityState::ActionableQuiet || s2 == StabilityState::FullySettled,
        "Expected ActionableQuiet or FullySettled, got {s2:?} (s1={s1:?})"
    );
}

#[test]
fn fully_settled_after_long_quiet() {
    let mut tracker = make_tracker_with_quiet(5, 50, 60000);
    let past = clock_now() - 500 * MS;
    quiet_since(&mut tracker, past);
    tracker.wait_start = Some(past);
    tracker.last_quiet_check = past;

    let _ = tracker.check(&Clock::start_now(), 0, 0);
    tracker.last_quiet_check = clock_now() - 200 * MS;
    let state = tracker.check(&Clock::start_now(), 0, 0);

    assert_eq!(state, StabilityState::FullySettled);
}

#[test]
fn timed_out_after_max_wait() {
    let mut tracker = make_tracker_with_quiet(5000, 10000, 10);
    let past = clock_now() - 50 * MS;
    tracker.wait_start = Some(past);
    tracker.last_dom_mutation = clock_now();

    let state = tracker.check(&Clock::start_now(), 0, 0);
    assert_eq!(state, StabilityState::TimedOut);
}

#[test]
fn dom_mutation_resets_quiet_streak() {
    let mut tracker = make_tracker_with_quiet(5, 50, 60000);
    let past = clock_now() - 500 * MS;
    quiet_since(&mut tracker, past);
    tracker.wait_start = Some(past);
    tracker.last_quiet_check = past;

    let _ = tracker.check(&Clock::start_now(), 0, 0);

    tracker.on_dom_mutation(clock_now());
    tracker.last_quiet_check = clock_now() - 200 * MS;
    let state = tracker.check(&Clock::start_now(), 0, 0);

    assert_eq!(state, StabilityState::Active);
}

#[test]
fn navigation_increments_and_decrements() {
    let mut tracker = StabilityTracker::new(&Clock::start_now());
    let now = clock_now();

    tracker.on_navigation(now);
    assert_eq!(tracker.active_navigations, 1);

    tracker.on_navigation(now);
    assert_eq!(tracker.active_navigations, 2);

    tracker.on_navigation_end(now);
    assert_eq!(tracker.active_navigations, 1);

    tracker.on_navigation_end(now);
    assert_eq!(tracker.active_navigations, 0);

    tracker.on_navigation_end(now);
    assert_eq!(tracker.active_navigations, 0);
}

#[test]
fn long_lived_connections_tracked() {
    let mut tracker = StabilityTracker::new(&Clock::start_now());
    tracker.on_long_lived_connection("ws-1");
    tracker.on_long_lived_connection("ws-2");
    assert_eq!(tracker.long_lived_connections.len(), 2);

    tracker.on_long_lived_disconnection("ws-1");
    assert_eq!(tracker.long_lived_connections.len(), 1);
    assert!(tracker.long_lived_connections.contains("ws-2"));
}

// ── Checks at chosen times ──

fn settled_tracker(base: u64) -> StabilityTracker {
    let mut t = make_tracker_with_quiet(200, 1000, 10_000);
    quiet_since(&mut t, base);
    t.wait_start = Some(base);
    t.last_quiet_check = base;
    t
}

#[test]
fn check_at_needs_two_quiet_windows() {
    let base = 1_000_000_000_000;
    let mut t = settled_tracker(base);
    // 1.5s of quiet: the first window only starts the streak.
    assert_eq!(t.check_at(base + 1500 * MS, 0, 0), StabilityState::Active);
    assert_eq!(t.current_quiet_streak, 1);
    // Less than a window later: no new window, still Active.
    assert_eq!(t.check_at(base + 1550 * MS, 0, 0), StabilityState::Active);
    // A window later: two quiet windows and 1.6s of quiet settle the page.
    assert_eq!(t.check_at(base + 1600 * MS, 0, 0), StabilityState::FullySettled);
    assert_eq!(t.wait_start, None);
    // The wait is over: Active until the next action.
    assert_eq!(t.check_at(base + 1800 * MS, 0, 0), StabilityState::Active);
}

#[test]
fn check_at_actionable_between_thresholds() {
    let base = 1_000_000_000_000;
    let mut t = settled_tracker(base);
    assert_eq!(t.check_at(base + 300 * MS, 0, 0), StabilityState::Active);
    assert_eq!(t.check_at(base + 400 * MS, 0, 0), StabilityState::ActionableQuiet);
    assert!(t.wait_start.is_some());
}

#[test]
fn check_at_times_out_exactly_after_max_wait() {
    let base = 1_000_000_000_000;
    let mut t = settled_tracker(base);
    t.last_dom_mutation = base + 10_000 * MS;
    assert_eq!(t.check_at(base + 10_000 * MS, 0, 0), StabilityState::Active);
    assert_eq!(t.check_at(base + 10_001 * MS, 0, 0), StabilityState::TimedOut);
    assert_eq!(t.wait_start, None);
    assert_eq!(t.current_quiet_streak, 0);
}

#[test]
fn busy_page_breaks_the_streak() {
    let base = 1_000_000_000_000;
    let mut t = settled_tracker(base);
    assert_eq!(t.check_at(base + 1500 * MS, 0, 0), StabilityState::Active);
    assert_eq!(t.current_quiet_streak, 1);
    assert_eq!(t.check_at(base + 1600 * MS, 1, 0), StabilityState::Active);
    assert_eq!(t.current_quiet_streak, 0);
}

#[test]
fn lifecycle_dom_content_loaded_counts_as_mutation() {
    let mut t = StabilityTracker::new(&Clock::start_now());
    t.on_lifecycle("load", 5);
    assert_ne!(t.last_dom_mutation, 5);
    t.on_lifecycle("DOMContentLoaded", 5);
    assert_eq!(t.last_dom_mutation, 5);
}

#[test]
fn streak_grows_only_after_a_quiet_window() {
    let mut t = StabilityTracker::new_at(0);
    t.begin_action(0);
    assert!(!t.streak_would_grow(50 * MS, 0, 0));
    assert!(t.streak_would_grow(250 * MS, 0, 0));
    assert!(!t.streak_would_grow(250 * MS, 1, 0));
}
