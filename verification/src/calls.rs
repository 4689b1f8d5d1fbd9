//! The CDP client's book of calls waiting for their responses.
//!
//! Each call gets the next sequential id and leaves a waiter under it.
//! Incoming messages that name a method are events; the others answer the
//! call whose id they carry, at most once. When the connection closes,
//! every waiting call is dropped and no new call is accepted.

use vstd::prelude::*;

use std::collections::HashMap;

verus! {

broadcast use vstd::std_specs::hash::group_hash_axioms;

pub struct PendingCalls<T> {
    waiting: HashMap<u64, T>,
    next_id: u64,
    closed: bool,
}

/// Where an incoming message goes.
pub enum Delivery<T> {
    /// It names a method: an event for the subscribers.
    Event,
    /// It answers a waiting call; here is that call's waiter.
    Reply(T),
    /// It answers no call that is waiting.
    Unclaimed,
}

/// The id that follows `id`, wrapping around as an atomic counter does.
pub open spec fn id_after(id: u64) -> u64 {
    if id == u64::MAX {
        0
    } else {
        (id + 1) as u64
    }
}

impl<T> PendingCalls<T> {
    /// The waiters, by call id.
    pub closed spec fn waiting(&self) -> Map<u64, T> {
        self.waiting@
    }

    /// The id the next call gets.
    pub closed spec fn next(&self) -> u64 {
        self.next_id
    }

    /// Whether the connection has closed.
    pub closed spec fn shut(&self) -> bool {
        self.closed
    }

    pub fn new() -> (r: Self)
        ensures
            r.waiting() == Map::<u64, T>::empty(),
            r.next() == 1,
            !r.shut(),
    {
        PendingCalls { waiting: HashMap::new(), next_id: 1, closed: false }
    }

    pub fn is_closed(&self) -> (r: bool)
        ensures
            r == self.shut(),
    {
        self.closed
    }

    /// Number of calls waiting.
    pub fn waiting_count(&self) -> (r: usize)
        ensures
            r == self.waiting().len(),
    {
        self.waiting.len()
    }

    /// Takes a new call: it gets the next id and its waiter is kept under
    /// it. Once the connection has closed no call is taken.
    pub fn register(&mut self, waiter: T) -> (r: Option<u64>)
        ensures
            registered(*old(self), *final(self), waiter, r),
    {
        if self.closed {
            return None;
        }
        let id = self.next_id;
        self.next_id = if id == u64::MAX {
            0
        } else {
            id + 1
        };
        self.waiting.insert(id, waiter);
        Some(id)
    }

    /// Drops the waiter of call `id` (its send or its wait failed), and
    /// hands it back if it was there.
    pub fn forget(&mut self, id: u64) -> (r: Option<T>)
        ensures
            final(self).waiting() == old(self).waiting().remove(id),
            final(self).next() == old(self).next(),
            final(self).shut() == old(self).shut(),
            match r {
                Some(w) => old(self).waiting().contains_key(id) && w == old(self).waiting()[id],
                None => !old(self).waiting().contains_key(id),
            },
    {
        self.waiting.remove(&id)
    }

    /// Routes an incoming message that names a method or not and carries
    /// an id or not.
    pub fn deliver(&mut self, names_method: bool, id: Option<u64>) -> (r: Delivery<T>)
        ensures
            delivered(*old(self), *final(self), names_method, id, r),
    {
        if names_method {
            Delivery::Event
        } else {
            match id {
                Some(i) => match self.waiting.remove(&i) {
                    Some(w) => Delivery::Reply(w),
                    None => Delivery::Unclaimed,
                },
                None => Delivery::Unclaimed,
            }
        }
    }

    /// The connection closed: every waiting call is dropped, and their
    /// number is returned.
    pub fn close(&mut self) -> (r: usize)
        ensures
            final(self).shut(),
            final(self).waiting() == Map::<u64, T>::empty(),
            final(self).next() == old(self).next(),
            r == old(self).waiting().len(),
    {
        self.closed = true;
        let n = self.waiting.len();
        self.waiting.clear();
        n
    }
}

/// What taking a call does: refused once closed; otherwise the call gets
/// the next id and its waiter is kept under it.
pub open spec fn registered<T>(before: PendingCalls<T>, after: PendingCalls<T>, waiter: T, r: Option<u64>) -> bool {
    if before.shut() {
        r is None && after == before
    } else {
        &&& r == Some(before.next())
        &&& after.waiting() == before.waiting().insert(before.next(), waiter)
        &&& after.next() == id_after(before.next())
        &&& !after.shut()
    }
}

/// What routing a message does.
pub open spec fn delivered<T>(
    before: PendingCalls<T>,
    after: PendingCalls<T>,
    names_method: bool,
    id: Option<u64>,
    r: Delivery<T>,
) -> bool {
    &&& after.next() == before.next()
    &&& after.shut() == before.shut()
    &&& if names_method {
        r is Event && after.waiting() == before.waiting()
    } else {
        match id {
            Some(i) => {
                &&& after.waiting() == before.waiting().remove(i)
                &&& if before.waiting().contains_key(i) {
                    r == Delivery::Reply(before.waiting()[i])
                } else {
                    r is Unclaimed
                }
            },
            None => r is Unclaimed && after.waiting() == before.waiting(),
        }
    }
}

/// A response carrying the id a call was given reaches that call's
/// waiter, and the call no longer waits.
pub proof fn law_reply_reaches_its_call<T>(
    p0: PendingCalls<T>,
    p1: PendingCalls<T>,
    p2: PendingCalls<T>,
    waiter: T,
    id: u64,
    d: Delivery<T>,
)
    requires
        registered(p0, p1, waiter, Some(id)),
        delivered(p1, p2, false, Some(id), d),
    ensures
        d == Delivery::Reply(waiter),
        !p2.waiting().contains_key(id),
{
}

/// A call is answered at most once: a second response with the same id
/// is unclaimed.
pub proof fn law_answered_once<T>(
    p1: PendingCalls<T>,
    p2: PendingCalls<T>,
    p3: PendingCalls<T>,
    id: u64,
    d1: Delivery<T>,
    d2: Delivery<T>,
)
    requires
        delivered(p1, p2, false, Some(id), d1),
        delivered(p2, p3, false, Some(id), d2),
    ensures
        d2 is Unclaimed,
{
}

/// Once the connection has closed, no call is taken.
pub proof fn law_closed_takes_no_call<T>(p0: PendingCalls<T>, p1: PendingCalls<T>, waiter: T, r: Option<u64>)
    requires
        p0.shut(),
        registered(p0, p1, waiter, r),
    ensures
        r is None,
        p1.shut(),
{
}

} // verus!
