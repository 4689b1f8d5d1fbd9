//! Event timeline with a retention policy and action markers.
//!
//! The timeline keeps at most `max_events` events; older events are evicted
//! first. `gc` drops events older than `max_age_ns`. A marker remembers where
//! the last action started, and moves with the events when they are evicted.

use vstd::prelude::*;
use std::collections::VecDeque;

use crate::clock::Clock;

verus! {

pub struct Timeline<T> {
    events: VecDeque<T>,
    max_events: usize,
    max_age_ns: u64,
    /// Index into events where the last action started
    last_action_index: Option<usize>,
    total_pushed: u64,
}

/// Where the action marker lands after the `k` oldest events are evicted:
/// it moves back by `k`, and disappears once the events before it are gone.
pub open spec fn shift_marker(marker: Option<usize>, k: nat) -> Option<usize> {
    match marker {
        Some(i) => if i >= k {
            Some((i - k) as usize)
        } else {
            None
        },
        None => None,
    }
}

/// The events reported since the last action: those from the marker on, or
/// all of them when there is no marker.
pub open spec fn since_marker<T>(events: Seq<T>, marker: Option<usize>) -> Seq<T> {
    match marker {
        Some(i) => events.skip(i as int),
        None => events,
    }
}

/// `after` is `before` after the events `new` were pushed, oldest first:
/// the last `max_events` of all events are kept, and the action marker
/// moves back by the number evicted.
pub open spec fn appended<T>(before: Timeline<T>, after: Timeline<T>, new: Seq<T>) -> bool {
    let all = before.events() + new;
    let k = if all.len() > before.max_events() {
        all.len() - before.max_events()
    } else {
        0
    };
    &&& after.events() == all.skip(k)
    &&& after.marker() == shift_marker(before.marker(), k as nat)
    &&& after.max_events() == before.max_events()
    &&& after.max_age_ns() == before.max_age_ns()
    &&& after.pushed() == before.pushed() + new.len()
}

/// Pushing nothing appends nothing.
pub proof fn lemma_appended_none<T>(t: Timeline<T>)
    requires
        t.wf(),
    ensures
        appended(t, t, Seq::empty()),
{
    assert(t.events() + Seq::<T>::empty() =~= t.events());
    assert(t.events().skip(0) =~= t.events());
    assert(shift_marker(t.marker(), 0) == t.marker());
}

/// One push appends one event.
pub proof fn lemma_push_appended<T>(a: Timeline<T>, b: Timeline<T>, e: T)
    requires
        a.wf(),
        ({
            let all = a.events().push(e);
            let k = all.len() - b.events().len();
            &&& b.events() == all.skip(k)
            &&& k == if all.len() > a.max_events() {
                all.len() - a.max_events()
            } else {
                0
            }
            &&& b.marker() == shift_marker(a.marker(), k as nat)
        }),
        b.max_events() == a.max_events(),
        b.max_age_ns() == a.max_age_ns(),
        b.pushed() == a.pushed() + 1,
    ensures
        appended(a, b, seq![e]),
{
    assert(a.events() + seq![e] =~= a.events().push(e));
}

/// Appending `s`, then `t`, appends `s + t`.
pub proof fn lemma_appended_trans<T>(a: Timeline<T>, b: Timeline<T>, c: Timeline<T>, s: Seq<T>, t: Seq<T>)
    requires
        a.wf(),
        appended(a, b, s),
        appended(b, c, t),
    ensures
        appended(a, c, s + t),
{
    let m = a.max_events() as int;
    let l1 = a.events().len() + s.len();
    let k1 = if l1 > m { l1 - m } else { 0 };
    let lb = b.events().len() + t.len();
    let k2 = if lb > m { lb - m } else { 0 };
    let all = a.events() + (s + t);
    assert(a.events() + (s + t) =~= (a.events() + s) + t);
    assert(b.events().len() == l1 - k1);
    let k = if all.len() > m { all.len() - m } else { 0 };
    assert(k == k1 + k2);
    assert((b.events() + t).skip(k2) =~= all.skip(k1 + k2));
    match a.marker() {
        Some(i) => {},
        None => {},
    }
}

/// The timeline never holds more than `max_events` events.
pub proof fn law_timeline_bounded<T>(t: Timeline<T>)
    requires
        t.wf(),
    ensures
        t.events().len() <= t.max_events(),
{
}

/// An event just pushed is the newest event reported since the last
/// action, whether or not the push evicted the action marker.
pub proof fn law_push_is_reported<T>(a: Timeline<T>, b: Timeline<T>, e: T)
    requires
        a.wf(),
        a.max_events() > 0,
        appended(a, b, seq![e]),
    ensures
        since_marker(b.events(), b.marker()).len() > 0,
        since_marker(b.events(), b.marker()).last() == e,
{
    let all = a.events() + seq![e];
    assert(all.last() == e);
}

/// Right after an action is marked, nothing is reported since it.
pub proof fn law_mark_reports_nothing<T>(t: Timeline<T>)
    requires
        t.wf(),
        t.marker() == Some(t.events().len() as usize),
    ensures
        since_marker(t.events(), t.marker()).len() == 0,
{
}

/// Garbage collection drops only the oldest events and keeps the rest in
/// order: what remains is a suffix of what was there.
pub proof fn law_gc_keeps_suffix<T, F: Fn(&T) -> u64>(a: Timeline<T>, b: Timeline<T>, cutoff: u64, f: F)
    requires
        gc_outcome(a, b, cutoff, f),
    ensures
        exists|k: int| 0 <= k <= a.events().len() && b.events() == a.events().skip(k),
{
    let k = a.events().len() - b.events().len();
    assert(b.events() == a.events().skip(k));
}

impl<T> Timeline<T> {
    /// The events held, oldest first.
    pub closed spec fn events(&self) -> Seq<T> {
        self.events@
    }

    pub closed spec fn max_events(&self) -> usize {
        self.max_events
    }

    pub closed spec fn max_age_ns(&self) -> u64 {
        self.max_age_ns
    }

    /// Position in `events()` where the last action started.
    pub closed spec fn marker(&self) -> Option<usize> {
        self.last_action_index
    }

    /// Number of events ever pushed, evicted ones included.
    pub closed spec fn pushed(&self) -> u64 {
        self.total_pushed
    }

    /// The buffer never holds more than `max_events` events, and the marker
    /// never points past its end.
    pub closed spec fn wf(&self) -> bool {
        &&& self.events@.len() <= self.max_events
        &&& match self.last_action_index {
            Some(i) => i <= self.events@.len(),
            None => true,
        }
    }

    pub fn new(max_events: usize, max_age_ns: u64) -> (t: Self)
        ensures
            t.wf(),
            t.events() == Seq::<T>::empty(),
            t.max_events() == max_events,
            t.max_age_ns() == max_age_ns,
            t.marker() is None,
            t.pushed() == 0,
    {
        let capacity = if max_events < 1024 {
            max_events
        } else {
            1024
        };
        Timeline {
            events: VecDeque::with_capacity(capacity),
            max_events,
            max_age_ns,
            last_action_index: None,
            total_pushed: 0,
        }
    }

    /// Append an event, evicting the oldest events beyond `max_events`.
    pub fn push(&mut self, event: T)
        requires
            old(self).wf(),
            old(self).pushed() < u64::MAX,
        ensures
            final(self).wf(),
            ({
                let all = old(self).events().push(event);
                let k = all.len() - final(self).events().len();
                &&& final(self).events() == all.skip(k)
                &&& k == if all.len() > old(self).max_events() {
                    all.len() - old(self).max_events()
                } else {
                    0
                }
                &&& final(self).marker() == shift_marker(old(self).marker(), k as nat)
            }),
            final(self).max_events() == old(self).max_events(),
            final(self).max_age_ns() == old(self).max_age_ns(),
            final(self).pushed() == old(self).pushed() + 1,
    {
        let ghost all = self.events@.push(event);
        self.events.push_back(event);
        self.total_pushed = self.total_pushed + 1;
        let ghost mut k: nat = 0;
        let ghost marker0 = self.last_action_index;
        // Enforce max_events
        while self.events.len() > self.max_events
            invariant
                self.events@ == all.skip(k as int),
                k <= all.len(),
                k == 0 || all.len() - k >= self.max_events,
                self.last_action_index == shift_marker(marker0, k),
                match marker0 {
                    Some(i) => i <= all.len() - 1,
                    None => true,
                },
                all.len() == old(self).events@.len() + 1,
                old(self).events@.len() <= self.max_events,
                self.max_events == old(self).max_events,
                self.max_age_ns == old(self).max_age_ns,
                self.total_pushed == old(self).total_pushed + 1,
            decreases self.events@.len(),
        {
            let _ = self.events.pop_front();
            // Adjust the action marker
            match self.last_action_index {
                Some(idx) => {
                    if idx > 0 {
                        self.last_action_index = Some(idx - 1);
                    } else {
                        self.last_action_index = None;
                    }
                },
                None => {},
            }
            proof {
                assert(all.skip(k as int).subrange(1, all.skip(k as int).len() as int) =~= all.skip(
                    k + 1 as int,
                ));
                k = k + 1;
            }
        }
    }

    /// Mark the current end of the timeline as the start of an action.
    pub fn mark_action_start(&mut self)
        requires
            old(self).wf(),
        ensures
            final(self).wf(),
            final(self).events() == old(self).events(),
            final(self).marker() == Some(old(self).events().len() as usize),
            final(self).max_events() == old(self).max_events(),
            final(self).max_age_ns() == old(self).max_age_ns(),
            final(self).pushed() == old(self).pushed(),
    {
        self.last_action_index = Some(self.events.len());
    }

    /// All events since the last action marker (all events without one).
    pub fn events_since_last_action(&self) -> (r: Vec<&T>)
        requires
            self.wf(),
        ensures
            r@.unref() == since_marker(self.events(), self.marker()),
    {
        let start = match self.last_action_index {
            Some(i) => i,
            None => 0,
        };
        let mut out: Vec<&T> = Vec::new();
        let mut i = start;
        while i < self.events.len()
            invariant
                start <= i <= self.events@.len(),
                start == match self.last_action_index {
                    Some(j) => j,
                    None => 0,
                },
                out@.unref() == self.events@.subrange(start as int, i as int),
            decreases self.events@.len() - i,
        {
            out.push(&self.events[i]);
            assert(self.events@.subrange(start as int, i + 1) =~= self.events@.subrange(
                start as int,
                i as int,
            ).push(self.events@[i as int]));
            i = i + 1;
        }
        assert(out@.unref() =~= since_marker(self.events(), self.marker()));
        out
    }

    /// Total number of events pushed, evicted ones included.
    pub fn total_count(&self) -> (r: u64)
        ensures
            r == self.pushed(),
    {
        self.total_pushed
    }

    /// Current buffer size.
    pub fn len(&self) -> (r: usize)
        ensures
            r == self.events().len(),
    {
        self.events.len()
    }

    /// Whether the timeline holds no event.
    pub fn is_empty(&self) -> (r: bool)
        ensures
            r == (self.events().len() == 0),
    {
        self.events.len() == 0
    }

    /// Drop the events older than `max_age_ns`, reading the clock. Nothing is
    /// dropped while the clock reads less than `max_age_ns`.
    pub fn gc<F: Fn(&T) -> u64>(&mut self, clock: &Clock, get_timestamp: F)
        requires
            old(self).wf(),
            forall|e: &T| #[trigger] get_timestamp.requires((e,)),
        ensures
            final(self).wf(),
            *final(self) == *old(self) || exists|cutoff: u64|
                cutoff + old(self).max_age_ns() >= clock.start() && #[trigger] gc_outcome(
                    *old(self),
                    *final(self),
                    cutoff,
                    get_timestamp,
                ),
            clock.start() >= old(self).max_age_ns() ==> exists|cutoff: u64|
                cutoff + old(self).max_age_ns() >= clock.start() && #[trigger] gc_outcome(
                    *old(self),
                    *final(self),
                    cutoff,
                    get_timestamp,
                ),
    {
        let now = clock.now();
        if now >= self.max_age_ns {
            self.gc_at(now, get_timestamp);
        }
    }

    /// Drop, oldest first, the events whose timestamp is before
    /// `now - max_age_ns`, stopping at the first event that is not.
    pub fn gc_at<F: Fn(&T) -> u64>(&mut self, now: u64, get_timestamp: F)
        requires
            old(self).wf(),
            now >= old(self).max_age_ns(),
            forall|e: &T| #[trigger] get_timestamp.requires((e,)),
        ensures
            final(self).wf(),
            gc_outcome(*old(self), *final(self), (now - old(self).max_age_ns()) as u64, get_timestamp),
    {
        let cutoff = now - self.max_age_ns;
        let ghost old_events = self.events@;
        let ghost marker0 = self.last_action_index;
        let ghost mut k: nat = 0;
        loop
            invariant_except_break
                self.events@ == old_events.skip(k as int),
                k <= old_events.len(),
                forall|i: int|
                    #![trigger old_events[i]]
                    0 <= i < k ==> stamped_before(get_timestamp, &old_events[i], cutoff),
                self.last_action_index == shift_marker(marker0, k),
                self.max_events == old(self).max_events,
                self.max_age_ns == old(self).max_age_ns,
                self.total_pushed == old(self).total_pushed,
                old(self).wf(),
                old_events == old(self).events@,
                marker0 == old(self).last_action_index,
                cutoff == now - old(self).max_age_ns,
                forall|e: &T| #[trigger] get_timestamp.requires((e,)),
            ensures
                self.events@ == old_events.skip(k as int),
                k <= old_events.len(),
                forall|i: int|
                    #![trigger old_events[i]]
                    0 <= i < k ==> stamped_before(get_timestamp, &old_events[i], cutoff),
                k < old_events.len() ==> stamped_at_or_after(get_timestamp, &old_events[k as int], cutoff),
                self.last_action_index == shift_marker(marker0, k),
                self.max_events == old(self).max_events,
                self.max_age_ns == old(self).max_age_ns,
                self.total_pushed == old(self).total_pushed,
                old(self).wf(),
                old_events == old(self).events@,
                marker0 == old(self).last_action_index,
            decreases old_events.len() - k,
        {
            if self.events.len() == 0 {
                break;
            }
            let ghost front = self.events@[0];
            let ts = get_timestamp(&self.events[0]);
            proof {
                assert(old_events.skip(k as int)[0] == old_events[k as int]);
                assert(front == old_events[k as int]);
            }
            if ts < cutoff {
                let _ = self.events.pop_front();
                match self.last_action_index {
                    Some(idx) => {
                        if idx > 0 {
                            self.last_action_index = Some(idx - 1);
                        } else {
                            self.last_action_index = None;
                        }
                    },
                    None => {},
                }
                proof {
                    assert(stamped_before(get_timestamp, &old_events[k as int], cutoff));
                    assert(old_events.skip(k as int).subrange(
                        1,
                        old_events.skip(k as int).len() as int,
                    ) =~= old_events.skip(k + 1 as int));
                    k = k + 1;
                }
            } else {
                proof {
                    assert(stamped_at_or_after(get_timestamp, &old_events[k as int], cutoff));
                }
                break;
            }
        }
        proof {
            assert(old_events.len() - self.events@.len() == k);
        }
    }
}

/// `get_timestamp` may return, for `e`, a timestamp before `cutoff`.
pub open spec fn stamped_before<T, F: Fn(&T) -> u64>(get_timestamp: F, e: &T, cutoff: u64) -> bool {
    exists|ts: u64| #[trigger] get_timestamp.ensures((e,), ts) && ts < cutoff
}

/// `get_timestamp` may return, for `e`, a timestamp at or after `cutoff`.
pub open spec fn stamped_at_or_after<T, F: Fn(&T) -> u64>(
    get_timestamp: F,
    e: &T,
    cutoff: u64,
) -> bool {
    exists|ts: u64| #[trigger] get_timestamp.ensures((e,), ts) && ts >= cutoff
}

/// What `gc` does with the given cutoff: the `k` oldest events are dropped,
/// each of them had a timestamp before the cutoff, the first event kept (if
/// any) had one at or after it, and the marker moves back by `k`.
pub open spec fn gc_outcome<T, F: Fn(&T) -> u64>(
    before: Timeline<T>,
    after: Timeline<T>,
    cutoff: u64,
    get_timestamp: F,
) -> bool {
    let k = before.events().len() - after.events().len();
    &&& 0 <= k <= before.events().len()
    &&& after.events() == before.events().skip(k)
    &&& forall|i: int|
        #![trigger before.events()[i]]
        0 <= i < k ==> stamped_before(get_timestamp, &before.events()[i], cutoff)
    &&& k < before.events().len() ==> stamped_at_or_after(get_timestamp, &before.events()[k], cutoff)
    &&& after.marker() == shift_marker(before.marker(), k as nat)
    &&& after.max_events() == before.max_events()
    &&& after.max_age_ns() == before.max_age_ns()
    &&& after.pushed() == before.pushed()
}

/// One call on a timeline: a push, an action mark, or a garbage collection
/// (which drops some of the oldest events).
pub enum TimelineCall<T> {
    Push(T),
    Mark,
    Collect,
}

/// `after` is `before` after the call `c`, as the call's contract says.
pub open spec fn timeline_step<T>(before: Timeline<T>, after: Timeline<T>, c: TimelineCall<T>) -> bool {
    match c {
        TimelineCall::Push(e) => appended(before, after, seq![e]),
        TimelineCall::Mark => {
            &&& after.events() == before.events()
            &&& after.marker() == Some(before.events().len() as usize)
            &&& after.max_events() == before.max_events()
        },
        TimelineCall::Collect => exists|k: nat|
            #![trigger before.events().skip(k as int)]
            k <= before.events().len() && after.events() == before.events().skip(k as int) && after.marker()
                == shift_marker(before.marker(), k) && after.max_events() == before.max_events(),
    }
}

/// A collection with any cutoff is a `Collect` step.
pub proof fn lemma_gc_collects<T, F: Fn(&T) -> u64>(a: Timeline<T>, b: Timeline<T>, cutoff: u64, f: F)
    requires
        gc_outcome(a, b, cutoff, f),
    ensures
        timeline_step(a, b, TimelineCall::Collect),
{
    let k = (a.events().len() - b.events().len()) as nat;
    assert(b.events() == a.events().skip(k as int));
}

/// A collection that dropped nothing is a `Collect` step.
pub proof fn lemma_unchanged_collects<T>(t: Timeline<T>)
    ensures
        timeline_step(t, t, TimelineCall::Collect),
{
    assert(t.events() == t.events().skip(0));
    assert(shift_marker(t.marker(), 0) == t.marker());
}

/// The timelines `ts` are what the calls `calls` made, one after another,
/// starting from `ts[0]`.
pub open spec fn timeline_runs<T>(ts: Seq<Timeline<T>>, calls: Seq<TimelineCall<T>>) -> bool {
    &&& ts.len() == calls.len() + 1
    &&& forall|i: int| 0 <= i < ts.len() ==> #[trigger] ts[i].wf()
    &&& forall|i: int| 0 <= i < calls.len() ==> timeline_step(ts[i], ts[i + 1], #[trigger] calls[i])
}

/// Every event pushed by `calls`, in push order.
pub open spec fn pushed_events<T>(calls: Seq<TimelineCall<T>>) -> Seq<T>
    decreases calls.len(),
{
    if calls.len() == 0 {
        Seq::empty()
    } else {
        let earlier = pushed_events(calls.drop_last());
        match calls.last() {
            TimelineCall::Push(e) => earlier.push(e),
            _ => earlier,
        }
    }
}

/// How many events had been pushed when the last action was marked, if one was.
pub open spec fn last_mark<T>(calls: Seq<TimelineCall<T>>) -> Option<nat>
    decreases calls.len(),
{
    if calls.len() == 0 {
        None
    } else {
        match calls.last() {
            TimelineCall::Mark => Some(pushed_events(calls.drop_last()).len()),
            _ => last_mark(calls.drop_last()),
        }
    }
}

/// Where the events and the marker of a timeline stand after `calls`: the
/// events are the newest of those pushed, and the marker sits at the first
/// of them pushed after the last mark, or is gone once those before it were.
pub open spec fn timeline_tracks<T>(t: Timeline<T>, calls: Seq<TimelineCall<T>>) -> bool {
    let p = pushed_events(calls);
    let gone = p.len() - t.events().len();
    &&& t.events().len() <= p.len()
    &&& t.events() == p.skip(gone)
    &&& match last_mark(calls) {
        None => t.marker() is None,
        Some(m) => {
            &&& m <= p.len()
            &&& if m >= gone {
                t.marker() == Some((m - gone) as usize)
            } else {
                t.marker() is None
            }
        },
    }
}

proof fn lemma_timeline_history<T>(ts: Seq<Timeline<T>>, calls: Seq<TimelineCall<T>>)
    requires
        timeline_runs(ts, calls),
        ts[0].events() == Seq::<T>::empty(),
        ts[0].marker() is None,
    ensures
        timeline_tracks(ts.last(), calls),
    decreases calls.len(),
{
    if calls.len() == 0 {
        assert(pushed_events(calls) =~= Seq::<T>::empty());
        assert(ts.last().events().skip(0) =~= ts.last().events());
    } else {
        let n = calls.len() - 1;
        let pre = ts.drop_last();
        let cs = calls.drop_last();
        assert forall|i: int| 0 <= i < pre.len() implies #[trigger] pre[i].wf() by {
            assert(ts[i].wf());
        }
        assert forall|i: int| 0 <= i < cs.len() implies timeline_step(pre[i], pre[i + 1], #[trigger] cs[i]) by {
            assert(timeline_step(ts[i], ts[i + 1], calls[i]));
        }
        lemma_timeline_history(pre, cs);
        let a = ts[n];
        let b = ts[n + 1];
        assert(pre.last() == a);
        assert(ts.last() == b);
        assert(a.wf() && b.wf());
        assert(timeline_step(a, b, calls[n]));
        assert(calls.last() == calls[n]);
        let p0 = pushed_events(cs);
        let g0 = p0.len() - a.events().len();
        match calls[n] {
            TimelineCall::Push(e) => {
                let p1 = p0.push(e);
                assert(pushed_events(calls) == p1);
                let all = a.events() + seq![e];
                let k = if all.len() > a.max_events() { all.len() - a.max_events() } else { 0 };
                assert(b.events() == all.skip(k));
                assert(all =~= p0.skip(g0).push(e));
                assert(p0.skip(g0).push(e) =~= p1.skip(g0));
                assert(p1.skip(g0).skip(k) =~= p1.skip(g0 + k));
                assert(last_mark(calls) == last_mark(cs));
            },
            TimelineCall::Mark => {
                assert(pushed_events(calls) == p0);
                assert(last_mark(calls) == Some(p0.len()));
            },
            TimelineCall::Collect => {
                let k = choose|k: nat|
                    #![trigger a.events().skip(k as int)]
                    k <= a.events().len() && b.events() == a.events().skip(k as int) && b.marker()
                        == shift_marker(a.marker(), k) && b.max_events() == a.max_events();
                assert(pushed_events(calls) == p0);
                assert(last_mark(calls) == last_mark(cs));
                assert(p0.skip(g0).skip(k as int) =~= p0.skip(g0 + k));
            },
        }
    }
}

/// For a timeline that started empty and then took the calls `calls`,
/// `events_since_last_action` reports, in push order, exactly the events
/// still held that were pushed after the last action was marked, and every
/// event still held when no action was marked.
pub proof fn law_events_since_last_action<T>(ts: Seq<Timeline<T>>, calls: Seq<TimelineCall<T>>)
    requires
        timeline_runs(ts, calls),
        ts[0].events() == Seq::<T>::empty(),
        ts[0].marker() is None,
    ensures
        ({
            let p = pushed_events(calls);
            let t = ts.last();
            let gone = p.len() - t.events().len();
            &&& t.events() == p.skip(gone)
            &&& since_marker(t.events(), t.marker()) == match last_mark(calls) {
                None => t.events(),
                Some(m) => p.skip(if m >= gone { m as int } else { gone }),
            }
        }),
{
    lemma_timeline_history(ts, calls);
    let p = pushed_events(calls);
    let t = ts.last();
    let gone = p.len() - t.events().len();
    match last_mark(calls) {
        None => {},
        Some(m) => {
            if m >= gone {
                assert(ts[ts.len() - 1].wf());
                assert(t.events().len() <= t.max_events());
                assert(m - gone <= t.events().len());
                assert((m - gone) as usize as int == m - gone);
                assert(p.skip(gone).skip(m - gone) =~= p.skip(m as int));
            }
        },
    }
}

} // verus!
