//! Dual-mode stability tracker.
//!
//! Two stability levels:
//! - ActionableQuiet: safe to continue with the next action (default 200ms quiet)
//! - FullySettled: safe for a full report (default 1000ms quiet)
//!
//! Tracks DOM mutations, layout shifts, style changes, network activity,
//! animations and navigation. Long-lived connections (WebSocket) are kept
//! apart so that they never block stability. A wait never lasts longer than
//! `max_wait_ms`: past it the tracker reports `TimedOut`.
//!
//! Timestamps are nanoseconds since the Unix epoch (see `clock`).

use vstd::prelude::*;
use vstd::hash_set::StringHashSet;

use crate::clock::{Clock, elapsed, elapsed_nanos, millis, millis_to_nanos};
use crate::text::{owned, same_text};

verus! {

broadcast use vstd::string::group_string_axioms;

#[derive(Debug, Clone, Copy, PartialEq, Eq, Structural)]
pub enum StabilityState {
    Active,
    ActionableQuiet,
    FullySettled,
    TimedOut,
}

/// Length of one hysteresis window.
pub const QUIET_WINDOW_MS: u64 = 100;

pub struct StabilityTracker {
    // Timestamps of the last activity of each kind
    pub last_dom_mutation: u64,
    pub last_layout_shift: u64,
    pub last_style_change: u64,
    pub last_meaningful_network: u64,
    pub last_animation_update: u64,
    pub last_navigation: u64,
    // Navigations started and not yet stopped
    pub active_navigations: u32,
    // Long-lived connections (excluded from stability checks)
    pub long_lived_connections: StringHashSet,
    // Configuration
    pub actionable_quiet_ms: u64,
    pub fully_settled_ms: u64,
    pub max_wait_ms: u64,
    // Hysteresis
    pub min_quiet_windows: u32,
    pub current_quiet_streak: u32,
    pub last_quiet_check: u64,
    // When the current wait started, if one is running
    pub wait_start: Option<u64>,
}

pub open spec fn nat_min(a: nat, b: nat) -> nat {
    if a <= b {
        a
    } else {
        b
    }
}

/// Time since the most recent activity of any tracked kind.
pub open spec fn min_quiet(t: StabilityTracker, now: u64) -> nat {
    nat_min(
        nat_min(
            nat_min(
                nat_min(elapsed(now, t.last_dom_mutation), elapsed(now, t.last_layout_shift)),
                elapsed(now, t.last_style_change),
            ),
            elapsed(now, t.last_meaningful_network),
        ),
        elapsed(now, t.last_animation_update),
    )
}

/// Whether a new hysteresis window has opened at `now`.
pub open spec fn window_passed(t: StabilityTracker, now: u64) -> bool {
    elapsed(now, t.last_quiet_check) >= millis(QUIET_WINDOW_MS)
}

/// Whether work is in progress that keeps the page active.
pub open spec fn busy(t: StabilityTracker, pending_requests: usize, active_animations: u32) -> bool {
    t.active_navigations > 0 || active_animations > 0 || pending_requests > 0
}

/// Whether the wait that is running has lasted longer than `max_wait_ms`.
pub open spec fn wait_expired(t: StabilityTracker, now: u64) -> bool {
    match t.wait_start {
        Some(start) => elapsed(now, start) > millis(t.max_wait_ms),
        None => false,
    }
}

/// Whether `check` at `now` extends the quiet streak by one.
pub open spec fn streak_grows(
    t: StabilityTracker,
    now: u64,
    pending_requests: usize,
    active_animations: u32,
) -> bool {
    &&& t.wait_start is Some
    &&& !wait_expired(t, now)
    &&& !busy(t, pending_requests, active_animations)
    &&& window_passed(t, now)
    &&& min_quiet(t, now) >= millis(t.actionable_quiet_ms)
}

/// The quiet streak after the hysteresis step at `now`.
pub open spec fn streak_after_window(t: StabilityTracker, now: u64) -> int {
    if window_passed(t, now) {
        if min_quiet(t, now) >= millis(t.actionable_quiet_ms) {
            t.current_quiet_streak + 1
        } else {
            0
        }
    } else {
        t.current_quiet_streak as int
    }
}

/// The outcome of `check` at `now`: the state reported and the tracker after it.
pub open spec fn check_spec(
    t: StabilityTracker,
    now: u64,
    pending_requests: usize,
    active_animations: u32,
) -> (StabilityState, StabilityTracker) {
    match t.wait_start {
        None => (StabilityState::Active, t),
        Some(start) => if wait_expired(t, now) {
            (
                StabilityState::TimedOut,
                StabilityTracker { wait_start: None, current_quiet_streak: 0, ..t },
            )
        } else if busy(t, pending_requests, active_animations) {
            (StabilityState::Active, StabilityTracker { current_quiet_streak: 0, ..t })
        } else {
            let streak = streak_after_window(t, now) as u32;
            let check_time = if window_passed(t, now) {
                now
            } else {
                t.last_quiet_check
            };
            let mq = min_quiet(t, now);
            let stepped = StabilityTracker {
                current_quiet_streak: streak,
                last_quiet_check: check_time,
                ..t
            };
            if streak < t.min_quiet_windows {
                (StabilityState::Active, stepped)
            } else if mq >= millis(t.fully_settled_ms) {
                (
                    StabilityState::FullySettled,
                    StabilityTracker { wait_start: None, current_quiet_streak: 0, ..stepped },
                )
            } else if mq >= millis(t.actionable_quiet_ms) {
                (StabilityState::ActionableQuiet, stepped)
            } else {
                (StabilityState::Active, stepped)
            }
        },
    }
}

/// Activity of any tracked kind (a DOM mutation, a layout shift, a style
/// change, meaningful network activity or an animation update) that
/// happened less than the actionable and the settled quiet time ago keeps
/// the page from settling: a check reports `Active` (or `TimedOut`, once
/// the wait has run out), and the quiet streak does not grow.
pub proof fn law_recent_activity_keeps_active(t: StabilityTracker, now: u64, pending: usize, anims: u32, last: u64)
    requires
        last == t.last_dom_mutation || last == t.last_layout_shift || last == t.last_style_change
            || last == t.last_meaningful_network || last == t.last_animation_update,
        elapsed(now, last) < millis(t.actionable_quiet_ms),
        elapsed(now, last) < millis(t.fully_settled_ms),
    ensures
        check_spec(t, now, pending, anims).0 == if t.wait_start is Some && wait_expired(t, now) {
            StabilityState::TimedOut
        } else {
            StabilityState::Active
        },
        !streak_grows(t, now, pending, anims),
{
    assert(min_quiet(t, now) <= elapsed(now, last));
}

/// With no action running, a check reports `Active` and changes nothing.
pub proof fn law_idle_without_action(t: StabilityTracker, now: u64, pending: usize, anims: u32)
    requires
        t.wait_start is None,
    ensures
        check_spec(t, now, pending, anims) == (StabilityState::Active, t),
{
}

/// Once the wait has run longer than the maximum, a check reports
/// `TimedOut`, ends the wait and resets the quiet streak.
pub proof fn law_timeout_ends_wait(t: StabilityTracker, now: u64, pending: usize, anims: u32)
    requires
        wait_expired(t, now),
    ensures
        check_spec(t, now, pending, anims).0 == StabilityState::TimedOut,
        check_spec(t, now, pending, anims).1.wait_start is None,
        check_spec(t, now, pending, anims).1.current_quiet_streak == 0,
{
}

/// Pending requests, running animations or navigations keep the page
/// `Active` (unless the wait timed out), and break the quiet streak.
pub proof fn law_busy_is_active(t: StabilityTracker, now: u64, pending: usize, anims: u32)
    requires
        t.wait_start is Some,
        !wait_expired(t, now),
        busy(t, pending, anims),
    ensures
        check_spec(t, now, pending, anims).0 == StabilityState::Active,
        check_spec(t, now, pending, anims).1.current_quiet_streak == 0,
{
}

/// Hysteresis: the page is reported quiet or settled only after
/// `min_quiet_windows` quiet windows in a row, with nothing in progress,
/// and after the matching quiet time: `fully_settled_ms` to settle,
/// `actionable_quiet_ms` (but not yet `fully_settled_ms`) to be actionable.
pub proof fn law_quiet_needs_streak(t: StabilityTracker, now: u64, pending: usize, anims: u32)
    ensures
        ({
            let state = check_spec(t, now, pending, anims).0;
            (state == StabilityState::FullySettled || state == StabilityState::ActionableQuiet) ==> {
                &&& t.wait_start is Some
                &&& !wait_expired(t, now)
                &&& !busy(t, pending, anims)
                &&& (streak_after_window(t, now) as u32) >= t.min_quiet_windows
                &&& state == StabilityState::FullySettled ==> min_quiet(t, now) >= millis(t.fully_settled_ms)
                &&& state == StabilityState::ActionableQuiet ==> millis(t.actionable_quiet_ms) <= min_quiet(t, now)
                    < millis(t.fully_settled_ms)
            }
        }),
{
}

/// Settling ends the wait: after `FullySettled` or `TimedOut`, the next
/// check reports `Active` until a new action begins.
pub proof fn law_settled_then_idle(
    t: StabilityTracker,
    now: u64,
    pending: usize,
    anims: u32,
    later: u64,
    pending2: usize,
    anims2: u32,
)
    requires
        check_spec(t, now, pending, anims).0 == StabilityState::FullySettled || check_spec(t, now, pending, anims).0
            == StabilityState::TimedOut,
    ensures
        check_spec(check_spec(t, now, pending, anims).1, later, pending2, anims2).0 == StabilityState::Active,
{
}

impl StabilityTracker {
    /// A tracker with the default thresholds (200ms / 1000ms / 10s, two
    /// quiet windows), every activity timestamp at the current time and no
    /// wait running.
    pub fn new(clock: &Clock) -> (t: Self)
        ensures
            t.last_dom_mutation >= clock.start(),
            t.last_dom_mutation == t.last_layout_shift,
            t.last_dom_mutation == t.last_style_change,
            t.last_dom_mutation == t.last_meaningful_network,
            t.last_dom_mutation == t.last_animation_update,
            t.last_dom_mutation == t.last_navigation,
            t.last_dom_mutation == t.last_quiet_check,
            t.active_navigations == 0,
            t.long_lived_connections@ == Set::<Seq<char>>::empty(),
            t.actionable_quiet_ms == 200,
            t.fully_settled_ms == 1000,
            t.max_wait_ms == 10000,
            t.min_quiet_windows == 2,
            t.current_quiet_streak == 0,
            t.wait_start is None,
    {
        Self::new_at(clock.now())
    }

    /// A tracker with the default thresholds, every activity timestamp at
    /// `now` and no wait running.
    pub fn new_at(now: u64) -> (t: Self)
        ensures
            t.last_dom_mutation == now,
            t.last_dom_mutation == t.last_layout_shift,
            t.last_dom_mutation == t.last_style_change,
            t.last_dom_mutation == t.last_meaningful_network,
            t.last_dom_mutation == t.last_animation_update,
            t.last_dom_mutation == t.last_navigation,
            t.last_dom_mutation == t.last_quiet_check,
            t.active_navigations == 0,
            t.long_lived_connections@ == Set::<Seq<char>>::empty(),
            t.actionable_quiet_ms == 200,
            t.fully_settled_ms == 1000,
            t.max_wait_ms == 10000,
            t.min_quiet_windows == 2,
            t.current_quiet_streak == 0,
            t.wait_start is None,
    {
        StabilityTracker {
            last_dom_mutation: now,
            last_layout_shift: now,
            last_style_change: now,
            last_meaningful_network: now,
            last_animation_update: now,
            last_navigation: now,
            active_navigations: 0,
            long_lived_connections: StringHashSet::new(),
            actionable_quiet_ms: 200,
            fully_settled_ms: 1000,
            max_wait_ms: 10000,
            min_quiet_windows: 2,
            current_quiet_streak: 0,
            last_quiet_check: now,
            wait_start: None,
        }
    }

    /// Reset stability state for a new action.
    pub fn begin_action(&mut self, now: u64)
        ensures
            *final(self) == (StabilityTracker {
                wait_start: Some(now),
                current_quiet_streak: 0,
                last_quiet_check: now,
                ..*old(self)
            }),
    {
        self.wait_start = Some(now);
        self.current_quiet_streak = 0;
        self.last_quiet_check = now;
    }

    /// Check the current stability state, reading the clock.
    pub fn check(&mut self, clock: &Clock, pending_requests: usize, active_animations: u32) -> (r: StabilityState)
        requires
            forall|now: u64|
                now >= clock.start() && #[trigger] streak_grows(*old(self), now, pending_requests, active_animations)
                    ==> old(self).current_quiet_streak < u32::MAX,
        ensures
            exists|now: u64|
                now >= clock.start() && (r, *final(self)) == check_spec(*old(self), now, pending_requests, active_animations),
    {
        let now = clock.now();
        self.check_at(now, pending_requests, active_animations)
    }

    /// Whether a check at `now` would extend the quiet streak by one.
    pub fn streak_would_grow(&self, now: u64, pending_requests: usize, active_animations: u32) -> (r: bool)
        ensures
            r == streak_grows(*self, now, pending_requests, active_animations),
    {
        let start = match self.wait_start {
            None => {
                return false;
            },
            Some(start) => start,
        };
        if (elapsed_nanos(now, start) as u128) > millis_to_nanos(self.max_wait_ms) {
            return false;
        }
        if self.active_navigations > 0 || active_animations > 0 || pending_requests > 0 {
            return false;
        }
        if (elapsed_nanos(now, self.last_quiet_check) as u128) < millis_to_nanos(QUIET_WINDOW_MS) {
            return false;
        }
        let mut quiet = elapsed_nanos(now, self.last_dom_mutation);
        let since_layout = elapsed_nanos(now, self.last_layout_shift);
        let since_style = elapsed_nanos(now, self.last_style_change);
        let since_network = elapsed_nanos(now, self.last_meaningful_network);
        let since_animation = elapsed_nanos(now, self.last_animation_update);
        if since_layout < quiet {
            quiet = since_layout;
        }
        if since_style < quiet {
            quiet = since_style;
        }
        if since_network < quiet {
            quiet = since_network;
        }
        if since_animation < quiet {
            quiet = since_animation;
        }
        (quiet as u128) >= millis_to_nanos(self.actionable_quiet_ms)
    }

    /// Check the stability state as of `now`.
    pub fn check_at(&mut self, now: u64, pending_requests: usize, active_animations: u32) -> (r:
        StabilityState)
        requires
            streak_grows(*old(self), now, pending_requests, active_animations)
                ==> old(self).current_quiet_streak < u32::MAX,
        ensures
            (r, *final(self)) == check_spec(*old(self), now, pending_requests, active_animations),
    {
        // The wait timer is started only by begin_action() or on_navigation()
        let start = match self.wait_start {
            None => {
                return StabilityState::Active;
            },
            Some(start) => start,
        };
        // Check max timeout first
        if (elapsed_nanos(now, start) as u128) > millis_to_nanos(self.max_wait_ms) {
            self.wait_start = None;
            self.current_quiet_streak = 0;
            return StabilityState::TimedOut;
        }
        // Active work
        if self.active_navigations > 0 || active_animations > 0 {
            self.current_quiet_streak = 0;
            return StabilityState::Active;
        }
        // Pending meaningful network requests (long-lived connections excluded)
        if pending_requests > 0 {
            self.current_quiet_streak = 0;
            return StabilityState::Active;
        }
        let actionable_threshold = millis_to_nanos(self.actionable_quiet_ms);
        let settled_threshold = millis_to_nanos(self.fully_settled_ms);

        let since_dom = elapsed_nanos(now, self.last_dom_mutation);
        let since_layout = elapsed_nanos(now, self.last_layout_shift);
        let since_style = elapsed_nanos(now, self.last_style_change);
        let since_network = elapsed_nanos(now, self.last_meaningful_network);
        let since_animation = elapsed_nanos(now, self.last_animation_update);

        let mut min_quiet = since_dom;
        if since_layout < min_quiet {
            min_quiet = since_layout;
        }
        if since_style < min_quiet {
            min_quiet = since_style;
        }
        if since_network < min_quiet {
            min_quiet = since_network;
        }
        if since_animation < min_quiet {
            min_quiet = since_animation;
        }
        let min_quiet = min_quiet as u128;

        // Hysteresis: require consecutive quiet windows
        if (elapsed_nanos(now, self.last_quiet_check) as u128) >= millis_to_nanos(QUIET_WINDOW_MS) {
            if min_quiet >= actionable_threshold {
                self.current_quiet_streak = self.current_quiet_streak + 1;
            } else {
                self.current_quiet_streak = 0;
            }
            self.last_quiet_check = now;
        }
        if self.current_quiet_streak < self.min_quiet_windows {
            return StabilityState::Active;
        }
        if min_quiet >= settled_threshold {
            self.wait_start = None;
            self.current_quiet_streak = 0;
            return StabilityState::FullySettled;
        }
        if min_quiet >= actionable_threshold {
            return StabilityState::ActionableQuiet;
        }
        StabilityState::Active
    }

    // ── Event handlers ──

    pub fn on_dom_mutation(&mut self, now: u64)
        ensures
            *final(self) == (StabilityTracker { last_dom_mutation: now, ..*old(self) }),
    {
        self.last_dom_mutation = now;
    }

    pub fn on_layout_shift(&mut self, now: u64)
        ensures
            *final(self) == (StabilityTracker { last_layout_shift: now, ..*old(self) }),
    {
        self.last_layout_shift = now;
    }

    pub fn on_style_change(&mut self, now: u64)
        ensures
            *final(self) == (StabilityTracker { last_style_change: now, ..*old(self) }),
    {
        self.last_style_change = now;
    }

    pub fn on_network_activity(&mut self, now: u64)
        ensures
            *final(self) == (StabilityTracker { last_meaningful_network: now, ..*old(self) }),
    {
        self.last_meaningful_network = now;
    }

    /// Completion also counts as network activity, so that the quiet window
    /// starts from the moment the network became idle.
    pub fn on_network_complete(&mut self, now: u64)
        ensures
            *final(self) == (StabilityTracker { last_meaningful_network: now, ..*old(self) }),
    {
        self.last_meaningful_network = now;
    }

    pub fn on_animation_start(&mut self, now: u64)
        ensures
            *final(self) == (StabilityTracker { last_animation_update: now, ..*old(self) }),
    {
        self.last_animation_update = now;
    }

    pub fn on_animation_end(&mut self, now: u64)
        ensures
            *final(self) == (StabilityTracker { last_animation_update: now, ..*old(self) }),
    {
        self.last_animation_update = now;
    }

    /// A navigation starts: it counts as active work and starts a wait.
    pub fn on_navigation(&mut self, now: u64)
        requires
            old(self).active_navigations < u32::MAX,
        ensures
            *final(self) == (StabilityTracker {
                last_navigation: now,
                active_navigations: (old(self).active_navigations + 1) as u32,
                wait_start: Some(now),
                ..*old(self)
            }),
    {
        self.last_navigation = now;
        self.active_navigations = self.active_navigations + 1;
        self.wait_start = Some(now);
    }

    /// A navigation stops; the count never drops below zero.
    pub fn on_navigation_end(&mut self, _now: u64)
        ensures
            *final(self) == (StabilityTracker {
                active_navigations: if old(self).active_navigations > 0 {
                    (old(self).active_navigations - 1) as u32
                } else {
                    0
                },
                ..*old(self)
            }),
    {
        if self.active_navigations > 0 {
            self.active_navigations = self.active_navigations - 1;
        }
    }

    /// Lifecycle events: `DOMContentLoaded` counts as a DOM mutation.
    /// Navigation counts are left to frame loading events.
    pub fn on_lifecycle(&mut self, name: &str, now: u64)
        ensures
            name@ == "DOMContentLoaded"@ ==> *final(self) == (StabilityTracker {
                last_dom_mutation: now,
                ..*old(self)
            }),
            name@ != "DOMContentLoaded"@ ==> *final(self) == *old(self),
    {
        if same_text(name, "DOMContentLoaded") {
            self.last_dom_mutation = now;
        }
    }

    pub fn on_long_lived_connection(&mut self, request_id: &str)
        ensures
            final(self).long_lived_connections@ == old(self).long_lived_connections@.insert(
                request_id@,
            ),
            *final(self) == (StabilityTracker {
                long_lived_connections: final(self).long_lived_connections,
                ..*old(self)
            }),
    {
        self.long_lived_connections.insert(owned(request_id));
    }

    pub fn on_long_lived_disconnection(&mut self, request_id: &str)
        ensures
            final(self).long_lived_connections@ == old(self).long_lived_connections@.remove(
                request_id@,
            ),
            *final(self) == (StabilityTracker {
                long_lived_connections: final(self).long_lived_connections,
                ..*old(self)
            }),
    {
        self.long_lived_connections.remove(request_id);
    }
}

impl Default for StabilityTracker {
    fn default() -> (t: Self)
        ensures
            t.wait_start is None,
            t.active_navigations == 0,
            t.current_quiet_streak == 0,
            t.actionable_quiet_ms == 200,
            t.fully_settled_ms == 1000,
            t.max_wait_ms == 10000,
            t.min_quiet_windows == 2,
            t.long_lived_connections@ == Set::<Seq<char>>::empty(),
    {
        Self::new(&Clock::start_now())
    }
}

} // verus!
