//! Network request tracker with long-lived connection classification.

use vstd::prelude::*;
use vstd::hash_map::StringHashMap;

use crate::table::{count_matching, lemma_count_matching, StrTable};
use crate::text::owned;

verus! {

broadcast use vstd::string::group_string_axioms;

#[derive(Debug, Clone)]
pub struct TrackedRequest {
    pub url: String,
    pub method: String,
    pub status: Option<i32>,
    pub completed: bool,
    pub failed: bool,
    pub error: Option<String>,
}

pub struct NetworkTracker {
    requests: StrTable<TrackedRequest>,
    /// request_id → url of open WebSockets
    websockets: StringHashMap<String>,
}

/// A request that has just been sent.
pub open spec fn sent_request(url: Seq<char>, method: Seq<char>, r: TrackedRequest) -> bool {
    &&& r.url@ == url
    &&& r.method@ == method
    &&& r.status is None
    &&& !r.completed
    &&& !r.failed
    &&& r.error is None
}

impl NetworkTracker {
    /// Tracked requests by request id.
    pub closed spec fn requests(&self) -> Map<Seq<char>, TrackedRequest> {
        self.requests.view()
    }

    /// Open WebSockets: request id → url.
    pub closed spec fn websockets(&self) -> Map<Seq<char>, String> {
        self.websockets@
    }

    /// The table is well formed, and no tracked request is marked completed:
    /// a finished request is dropped instead.
    pub open spec fn wf(&self) -> bool {
        &&& self.table_ok()
        &&& forall|id: Seq<char>| #[trigger] self.requests().contains_key(id) ==> !self.requests()[id].completed
    }

    pub closed spec fn table_ok(&self) -> bool {
        self.requests.wf()
    }

    /// A tracker tracks finitely many requests, so finitely many are pending.
    pub proof fn lemma_finite(&self)
        ensures
            self.requests().dom().finite(),
            self.pending_ids().finite(),
    {
        self.requests.lemma_finite();
        vstd::set_lib::lemma_set_subset_finite(self.requests().dom(), self.pending_ids());
    }

    /// The request ids that count as pending: not completed, and not a WebSocket.
    pub open spec fn pending_ids(&self) -> Set<Seq<char>> {
        self.requests().dom().filter(
            |id: Seq<char>| !self.requests()[id].completed && !self.websockets().contains_key(id),
        )
    }

    pub fn new() -> (t: Self)
        ensures
            t.wf(),
            t.requests() == Map::<Seq<char>, TrackedRequest>::empty(),
            t.websockets() == Map::<Seq<char>, String>::empty(),
    {
        NetworkTracker { requests: StrTable::new(), websockets: StringHashMap::new() }
    }

    pub fn on_request_sent(&mut self, request_id: &str, url: &str, method: &str)
        requires
            old(self).wf(),
        ensures
            final(self).wf(),
            request_sent(*old(self), *final(self), request_id@, url@, method@),
    {
        let req = TrackedRequest {
            url: owned(url),
            method: owned(method),
            status: None,
            completed: false,
            failed: false,
            error: None,
        };
        self.requests.insert(request_id, req);
    }

    pub fn on_response(&mut self, request_id: &str, status: i32)
        requires
            old(self).wf(),
        ensures
            final(self).wf(),
            response_noted(*old(self), *final(self), request_id@, status),
    {
        let ghost before = self.requests.view();
        match self.requests.get(request_id) {
            Some(req) => {
                let error = match &req.error {
                    Some(e) => Some(e.clone()),
                    None => None,
                };
                let updated = TrackedRequest {
                    url: req.url.clone(),
                    method: req.method.clone(),
                    status: Some(status),
                    completed: req.completed,
                    failed: req.failed,
                    error,
                };
                assert(updated == TrackedRequest { status: Some(status), ..before[request_id@] });
                self.requests.insert(request_id, updated);
            },
            None => {},
        }
    }

    /// A finished request is dropped from the tracker.
    pub fn on_complete(&mut self, request_id: &str)
        requires
            old(self).wf(),
        ensures
            final(self).wf(),
            request_dropped(*old(self), *final(self), request_id@),
    {
        self.requests.remove(request_id);
    }

    /// A failed request is dropped from the tracker.
    pub fn on_failed(&mut self, request_id: &str, _error: &str)
        requires
            old(self).wf(),
        ensures
            final(self).wf(),
            request_dropped(*old(self), *final(self), request_id@),
    {
        self.requests.remove(request_id);
    }

    pub fn on_websocket_opened(&mut self, request_id: &str, url: &str)
        requires
            old(self).wf(),
        ensures
            final(self).wf(),
            socket_opened(*old(self), *final(self), request_id@, url@),
    {
        self.websockets.insert(owned(request_id), owned(url));
    }

    pub fn on_websocket_closed(&mut self, request_id: &str)
        requires
            old(self).wf(),
        ensures
            final(self).wf(),
            socket_closed(*old(self), *final(self), request_id@),
    {
        self.websockets.remove(request_id);
    }

    /// Count of pending (not completed) requests, excluding WebSockets.
    pub fn pending_count(&self) -> (r: usize)
        requires
            self.wf(),
        ensures
            r == self.pending_ids().len(),
    {
        let ghost ws = self.websockets@;
        let ghost p = |id: Seq<char>, q: TrackedRequest| !q.completed && !ws.contains_key(id);
        proof {
            self.requests.lemma_view();
        }
        let ghost s = self.requests.entries();
        let mut count: usize = 0;
        let mut i: usize = 0;
        let n = self.requests.len();
        while i < n
            invariant
                n == s.len(),
                i <= n,
                s == self.requests.entries(),
                count == count_matching(s, p, i as int),
                count <= i,
                ws == self.websockets@,
                p == (|id: Seq<char>, q: TrackedRequest| !q.completed && !ws.contains_key(id)),
            decreases n - i,
        {
            let entry = self.requests.entry(i);
            if !entry.1.completed && !self.websockets.contains_key(entry.0.as_str()) {
                count = count + 1;
            }
            i = i + 1;
        }
        proof {
            lemma_count_matching(s, p);
            assert(self.pending_ids() =~= self.requests.view().dom().filter(
                |k: Seq<char>| p(k, self.requests.view()[k]),
            ));
        }
        count
    }

    /// Get the URL for a request ID.
    pub fn get_url(&self, request_id: &str) -> (r: Option<String>)
        requires
            self.wf(),
        ensures
            match r {
                Some(u) => self.requests().contains_key(request_id@) && u@
                    == self.requests()[request_id@].url@,
                None => !self.requests().contains_key(request_id@),
            },
    {
        match self.requests.get(request_id) {
            Some(req) => Some(req.url.clone()),
            None => None,
        }
    }
}

/// `after` tracks `id` as a request just sent with `url` and `method`.
pub open spec fn request_sent(before: NetworkTracker, after: NetworkTracker, id: Seq<char>, url: Seq<char>, method: Seq<char>) -> bool {
    &&& after.requests().dom() == before.requests().dom().insert(id)
    &&& sent_request(url, method, after.requests()[id])
    &&& forall|j: Seq<char>| #[trigger] before.requests().contains_key(j) && j != id ==> after.requests()[j] == before.requests()[j]
    &&& after.websockets() == before.websockets()
}

/// `after` records `status` as the response status of `id`, if tracked.
pub open spec fn response_noted(before: NetworkTracker, after: NetworkTracker, id: Seq<char>, status: i32) -> bool {
    &&& after.requests() == if before.requests().contains_key(id) {
        before.requests().insert(id, TrackedRequest { status: Some(status), ..before.requests()[id] })
    } else {
        before.requests()
    }
    &&& after.websockets() == before.websockets()
}

/// `after` no longer tracks the request `id`.
pub open spec fn request_dropped(before: NetworkTracker, after: NetworkTracker, id: Seq<char>) -> bool {
    &&& after.requests() == before.requests().remove(id)
    &&& after.websockets() == before.websockets()
}

/// `after` tracks `id` as an open WebSocket to `url`.
pub open spec fn socket_opened(before: NetworkTracker, after: NetworkTracker, id: Seq<char>, url: Seq<char>) -> bool {
    &&& after.requests() == before.requests()
    &&& after.websockets().dom() == before.websockets().dom().insert(id)
    &&& after.websockets()[id]@ == url
    &&& forall|j: Seq<char>|
        #[trigger] before.websockets().contains_key(j) && j != id ==> after.websockets()[j] == before.websockets()[j]
}

/// `after` no longer tracks the WebSocket `id`.
pub open spec fn socket_closed(before: NetworkTracker, after: NetworkTracker, id: Seq<char>) -> bool {
    &&& after.requests() == before.requests()
    &&& after.websockets() == before.websockets().remove(id)
}

/// A request just sent is pending, unless its id is an open WebSocket.
pub proof fn law_sent_is_pending(a: NetworkTracker, b: NetworkTracker, id: Seq<char>, url: Seq<char>, method: Seq<char>)
    requires
        request_sent(a, b, id, url, method),
        !a.websockets().contains_key(id),
    ensures
        b.pending_ids().contains(id),
{
}

/// Once a request has finished (or failed), it no longer counts as pending.
pub proof fn law_finished_not_pending(a: NetworkTracker, b: NetworkTracker, id: Seq<char>)
    requires
        request_dropped(a, b, id),
    ensures
        !b.pending_ids().contains(id),
{
}

/// An open WebSocket never counts as a pending request.
pub proof fn law_websocket_not_pending(a: NetworkTracker, b: NetworkTracker, id: Seq<char>, url: Seq<char>)
    requires
        socket_opened(a, b, id, url),
    ensures
        !b.pending_ids().contains(id),
{
}

/// Sending a request adds one to the pending count, unless the id is
/// already tracked or is an open WebSocket.
pub proof fn law_sent_count(a: NetworkTracker, b: NetworkTracker, id: Seq<char>, url: Seq<char>, method: Seq<char>)
    requires
        a.wf(),
        request_sent(a, b, id, url, method),
    ensures
        b.pending_ids().len() == a.pending_ids().len() + if !a.requests().contains_key(id) && !a.websockets().contains_key(
            id,
        ) {
            1int
        } else {
            0int
        },
{
    a.lemma_finite();
    if !a.websockets().contains_key(id) {
        assert(b.pending_ids() =~= a.pending_ids().insert(id));
    } else {
        assert(b.pending_ids() =~= a.pending_ids());
    }
}

/// Finishing (or failing) a request takes one off the pending count when it
/// was tracked and is not an open WebSocket.
pub proof fn law_dropped_count(a: NetworkTracker, b: NetworkTracker, id: Seq<char>)
    requires
        a.wf(),
        request_dropped(a, b, id),
    ensures
        b.pending_ids().len() == a.pending_ids().len() - if a.requests().contains_key(id) && !a.websockets().contains_key(
            id,
        ) {
            1int
        } else {
            0int
        },
{
    a.lemma_finite();
    assert(b.pending_ids() =~= a.pending_ids().remove(id));
}

/// Opening a WebSocket takes its id off the pending count when it was a
/// tracked request not yet an open WebSocket; no other id changes.
pub proof fn law_socket_count(a: NetworkTracker, b: NetworkTracker, id: Seq<char>, url: Seq<char>)
    requires
        a.wf(),
        socket_opened(a, b, id, url),
    ensures
        b.pending_ids().len() == a.pending_ids().len() - if a.requests().contains_key(id) && !a.websockets().contains_key(
            id,
        ) {
            1int
        } else {
            0int
        },
{
    a.lemma_finite();
    assert(b.pending_ids() =~= a.pending_ids().remove(id));
}

/// One call on a tracker, with what it hands over. `Finished` stands for
/// `on_complete` and for `on_failed`.
pub enum NetCall {
    Sent { id: Seq<char>, url: Seq<char>, method: Seq<char> },
    Response { id: Seq<char>, status: i32 },
    Finished { id: Seq<char> },
    SocketOpened { id: Seq<char>, url: Seq<char> },
    SocketClosed { id: Seq<char> },
}

/// `after` is `before` after the call `c`, as the call's contract says.
pub open spec fn call_step(before: NetworkTracker, after: NetworkTracker, c: NetCall) -> bool {
    match c {
        NetCall::Sent { id, url, method } => request_sent(before, after, id, url, method),
        NetCall::Response { id, status } => response_noted(before, after, id, status),
        NetCall::Finished { id } => request_dropped(before, after, id),
        NetCall::SocketOpened { id, url } => socket_opened(before, after, id, url),
        NetCall::SocketClosed { id } => socket_closed(before, after, id),
    }
}

/// The trackers `ts` are what the calls `calls` made, one after another,
/// starting from `ts[0]`.
pub open spec fn runs(ts: Seq<NetworkTracker>, calls: Seq<NetCall>) -> bool {
    &&& ts.len() == calls.len() + 1
    &&& forall|i: int| 0 <= i < calls.len() ==> call_step(ts[i], ts[i + 1], #[trigger] calls[i])
}

/// The url of the last request sent with `id` that has not finished or
/// failed since, if there is one.
pub open spec fn open_url(calls: Seq<NetCall>, id: Seq<char>) -> Option<Seq<char>>
    decreases calls.len(),
{
    if calls.len() == 0 {
        None
    } else {
        let earlier = open_url(calls.drop_last(), id);
        match calls.last() {
            NetCall::Sent { id: j, url, method: _ } => if j == id {
                Some(url)
            } else {
                earlier
            },
            NetCall::Finished { id: j } => if j == id {
                None
            } else {
                earlier
            },
            _ => earlier,
        }
    }
}

/// Whether a WebSocket with `id` was opened and not closed since.
pub open spec fn socket_open(calls: Seq<NetCall>, id: Seq<char>) -> bool
    decreases calls.len(),
{
    if calls.len() == 0 {
        false
    } else {
        let earlier = socket_open(calls.drop_last(), id);
        match calls.last() {
            NetCall::SocketOpened { id: j, url: _ } => j == id || earlier,
            NetCall::SocketClosed { id: j } => j != id && earlier,
            _ => earlier,
        }
    }
}

/// What a tracker that started empty holds after `calls`, by induction on
/// the calls.
proof fn lemma_history(ts: Seq<NetworkTracker>, calls: Seq<NetCall>)
    requires
        runs(ts, calls),
        ts[0].requests() == Map::<Seq<char>, TrackedRequest>::empty(),
        ts[0].websockets() == Map::<Seq<char>, String>::empty(),
    ensures
        forall|id: Seq<char>| #[trigger] ts.last().requests().contains_key(id) <==> open_url(calls, id) is Some,
        forall|id: Seq<char>|
            #[trigger] ts.last().requests().contains_key(id) ==> ts.last().requests()[id].url@ == open_url(calls, id)->0
                && !ts.last().requests()[id].completed,
        forall|id: Seq<char>| #[trigger] ts.last().websockets().contains_key(id) <==> socket_open(calls, id),
    decreases calls.len(),
{
    if calls.len() > 0 {
        let n = calls.len() - 1;
        let pre = ts.drop_last();
        let cs = calls.drop_last();
        assert forall|i: int| 0 <= i < cs.len() implies call_step(pre[i], pre[i + 1], #[trigger] cs[i]) by {
            assert(call_step(ts[i], ts[i + 1], calls[i]));
        }
        lemma_history(pre, cs);
        let a = ts[n];
        let b = ts[n + 1];
        assert(pre.last() == a);
        assert(ts.last() == b);
        assert(call_step(a, b, calls[n]));
        assert(calls.last() == calls[n]);
        assert forall|id: Seq<char>| #[trigger] b.requests().contains_key(id) <==> open_url(calls, id) is Some by {
            assert(a.requests().contains_key(id) <==> open_url(cs, id) is Some);
        }
        assert forall|id: Seq<char>| #[trigger] b.requests().contains_key(id) implies b.requests()[id].url@
            == open_url(calls, id)->0 && !b.requests()[id].completed by {
            if a.requests().contains_key(id) {
                assert(a.requests()[id].url@ == open_url(cs, id)->0);
            }
        }
        assert forall|id: Seq<char>| #[trigger] b.websockets().contains_key(id) <==> socket_open(calls, id) by {
            assert(a.websockets().contains_key(id) <==> socket_open(cs, id));
        }
    }
}

/// For a tracker that started empty and then took the calls `calls`:
/// `get_url(id)` gives the url of the last request sent with `id` that has
/// not finished or failed since (and nothing when there is none), and the
/// pending requests are exactly those ids that are not open WebSockets.
pub proof fn law_history(ts: Seq<NetworkTracker>, calls: Seq<NetCall>)
    requires
        runs(ts, calls),
        ts[0].requests() == Map::<Seq<char>, TrackedRequest>::empty(),
        ts[0].websockets() == Map::<Seq<char>, String>::empty(),
    ensures
        forall|id: Seq<char>|
            #[trigger] open_url(calls, id) matches Some(u) ==> ts.last().requests().contains_key(id)
                && ts.last().requests()[id].url@ == u,
        forall|id: Seq<char>| #[trigger] open_url(calls, id) is None ==> !ts.last().requests().contains_key(id),
        ts.last().pending_ids() == Set::new(|id: Seq<char>| open_url(calls, id) is Some && !socket_open(calls, id)),
{
    lemma_history(ts, calls);
    let t = ts.last();
    assert(t.pending_ids() =~= Set::new(|id: Seq<char>| open_url(calls, id) is Some && !socket_open(calls, id)));
}

impl Default for NetworkTracker {
    fn default() -> (t: Self)
        ensures
            t.wf(),
            t.requests() == Map::<Seq<char>, TrackedRequest>::empty(),
            t.websockets() == Map::<Seq<char>, String>::empty(),
    {
        Self::new()
    }
}

} // verus!
