//! The page observer's state and the decisions it takes on each event.
//!
//! One `PageState` owns everything known about a page: the live DOM tree,
//! the event timeline, the stability tracker, the network tracker, running
//! animations and attached child targets. Each sensor event updates it and
//! yields the outside work to do next (fetch the document, enable domains
//! on a child target, emit a stream event); the caller performs that work
//! and feeds results back.

use vstd::prelude::*;

use crate::cdp_types::{
    AnimationCanceled, AttachedToTarget, AttributeModified, AttributeRemoved, CharacterDataModified,
    ChildNodeCountUpdated, ChildNodeInserted, ChildNodeRemoved, DetachedFromTarget, FrameNavigated,
    InlineStyleInvalidated, PseudoElementEvent, RequestData, ResponseData, SetChildNodes, ShadowRootEvent,
    TargetInfo, WebSocketCreated,
};
use crate::clock::{elapsed, elapsed_nanos};
use crate::dom_node::{delivered_count, delivered_list_count, preorder, preorder_list};
use crate::dom_tree::{
    LiveDomTree, LinkList, Placement, attached, attribute_removed, attribute_set, children_replaced, count_set,
    detached, same_tree, text_set,
};
use crate::network::{request_sent, response_noted, request_dropped, socket_opened, socket_closed};
use crate::network::NetworkTracker;
use crate::stability::{StabilityState, StabilityTracker, check_spec, streak_grows};
use crate::timeline::since_marker;
use crate::table::StrTable;
use crate::text::{decimal, signed_decimal, push_decimal, push_signed, push_text, owned, same_text};
use crate::timeline::{Timeline, appended, lemma_push_appended, lemma_appended_trans, lemma_appended_none};

verus! {

broadcast use vstd::string::group_string_axioms;

/// What the observer noted about a page change.
pub enum ObservationKind {
    /// A description of a DOM change.
    DomMutation(String),
    /// A layout shift; the score is kept as the bit pattern of its `f64`.
    LayoutShift { value_bits: u64 },
    NetworkRequest { url: String, method: String, target: Option<String> },
    NetworkResponse { url: String, status: i32, target: Option<String> },
    NetworkComplete { request_id: String, target: Option<String> },
    NetworkError { url: String, error: String, target: Option<String> },
    ConsoleMessage { level: String, text: String, target: Option<String> },
    Error { text: String, target: Option<String> },
    Navigation { url: String },
    AnimationStarted { id: String },
    AnimationEnded { id: String },
    FrameCapture,
    Lifecycle { name: String },
    AxUpdate { node_count: usize },
}

/// An observation stored in the timeline.
pub struct ObservationEvent {
    /// Nanoseconds since the Unix epoch.
    pub timestamp: u64,
    pub epoch: u64,
    pub kind: ObservationKind,
}

/// A real-time event emitted during watch/streaming mode.
pub struct StreamEvent {
    /// Milliseconds since streaming started
    pub time_ms: u64,
    /// Event category
    pub category: String,
    /// Event description
    pub detail: String,
    /// Target session ID for child-target events (OOPIF, iframe, worker)
    pub target: Option<String>,
}

/// Commands the page can be asked to execute.
#[derive(Debug)]
pub enum ActuatorCommand {
    Navigate { url: String },
    Click { selector: String },
    Type { selector: String, text: String },
    Snapshot,
    /// Enable streaming mode: every observation is also streamed.
    EnableStreaming,
}

/// Outside work that an event asks for.
pub enum PageAction {
    /// Request the whole document tree (DOM.getDocument, full depth,
    /// piercing) and hand its root to `apply_document`.
    FetchDocument,
    /// Enable the Network, Runtime and Log domains on this child session.
    EnableChildDomains(String),
    /// Emit this stream event.
    Stream(StreamEvent),
    /// Emit a layout-shift stream event: category "layout", detail
    /// "CLS " and the score with four decimals.
    StreamLayoutShift { time_ms: u64, value_bits: u64, target: Option<String> },
}

/// A normalized event from the page, with what the observer reads of it.
pub enum SensorEvent {
    DocumentUpdated,
    SetChildNodes(SetChildNodes),
    ChildNodeInserted(ChildNodeInserted),
    ChildNodeRemoved(ChildNodeRemoved),
    AttributeModified(AttributeModified),
    AttributeRemoved(AttributeRemoved),
    CharacterDataModified(CharacterDataModified),
    ChildNodeCountUpdated(ChildNodeCountUpdated),
    InlineStyleInvalidated(InlineStyleInvalidated),
    ShadowRootPushed(ShadowRootEvent),
    ShadowRootPopped(ShadowRootEvent),
    PseudoElementAdded(PseudoElementEvent),
    PseudoElementRemoved(PseudoElementEvent),
    LifecycleEvent { frame_id: String, name: String },
    FrameNavigated(FrameNavigated),
    FrameStartedLoading { frame_id: String },
    FrameStoppedLoading { frame_id: String },
    NavigatedWithinDocument { frame_id: String, url: String },
    FrameResized,
    ScreencastFrame,
    RequestWillBeSent { request_id: String, request: RequestData },
    ResponseReceived { request_id: String, response: ResponseData },
    LoadingFinished { request_id: String },
    LoadingFailed { request_id: String, error_text: String },
    WebSocketCreated(WebSocketCreated),
    WebSocketClosed { request_id: String },
    /// Runtime.consoleAPICalled, with the text of each argument.
    ConsoleApiCalled { call_type: String, args: Vec<String> },
    ExceptionThrown { text: String },
    LogEntryAdded { level: String, text: String },
    AnimationStarted { id: String },
    AnimationCanceled(AnimationCanceled),
    PerformanceMetrics,
    /// A layout shift; the score is the bit pattern of its `f64`.
    LayoutShift { value_bits: u64 },
    AttachedToTarget(AttachedToTarget),
    DetachedFromTarget(DetachedFromTarget),
    AxNodesUpdated { node_count: usize },
}

/// Everything the observer holds about one page.
pub struct PageState {
    pub page_epoch: u64,
    pub main_frame_id: Option<String>,
    pub dom_tree: LiveDomTree,
    pub timeline: Timeline<ObservationEvent>,
    pub stability: StabilityTracker,
    pub network: NetworkTracker,
    /// Running animations: id → start time.
    pub animations: StrTable<u64>,
    /// Attached child targets by session id.
    pub child_targets: StrTable<TargetInfo>,
    pub mutation_burst_count: u32,
    pub last_burst_check: u64,
    pub needs_reconciliation: bool,
    pub current_action: Option<String>,
    pub action_start: Option<u64>,
    pub last_action_error: Option<String>,
    pub streaming: bool,
    pub stream_start: u64,
}

/// The stream category of an observation.
pub open spec fn stream_category(k: ObservationKind) -> Seq<char> {
    match k {
        ObservationKind::DomMutation(_) => seq!['d', 'o', 'm'],
        ObservationKind::LayoutShift { .. } => seq!['l', 'a', 'y', 'o', 'u', 't'],
        ObservationKind::NetworkRequest { .. } => seq!['n', 'e', 't', 'w', 'o', 'r', 'k'],
        ObservationKind::NetworkResponse { .. } => seq!['n', 'e', 't', 'w', 'o', 'r', 'k'],
        ObservationKind::NetworkComplete { .. } => seq!['n', 'e', 't', 'w', 'o', 'r', 'k'],
        ObservationKind::NetworkError { .. } => seq!['e', 'r', 'r', 'o', 'r'],
        ObservationKind::ConsoleMessage { .. } => seq!['c', 'o', 'n', 's', 'o', 'l', 'e'],
        ObservationKind::Error { .. } => seq!['e', 'r', 'r', 'o', 'r'],
        ObservationKind::Navigation { .. } => seq!['n', 'a', 'v', 'i', 'g', 'a', 't', 'i', 'o', 'n'],
        ObservationKind::AnimationStarted { .. } => seq!['a', 'n', 'i', 'm', 'a', 't', 'i', 'o', 'n'],
        ObservationKind::AnimationEnded { .. } => seq!['a', 'n', 'i', 'm', 'a', 't', 'i', 'o', 'n'],
        ObservationKind::FrameCapture => seq!['v', 'i', 's', 'u', 'a', 'l'],
        ObservationKind::Lifecycle { .. } => seq!['l', 'i', 'f', 'e', 'c', 'y', 'c', 'l', 'e'],
        ObservationKind::AxUpdate { .. } => seq!['a', 'c', 'c', 'e', 's', 's', 'i', 'b', 'i', 'l', 'i', 't', 'y'],
    }
}

/// The stream detail of an observation other than a layout shift.
pub open spec fn stream_detail(k: ObservationKind) -> Seq<char> {
    match k {
        ObservationKind::DomMutation(s) => s@,
        ObservationKind::LayoutShift { .. } => Seq::empty(),
        ObservationKind::NetworkRequest { url, method, .. } => method@ + seq![' '] + url@,
        ObservationKind::NetworkResponse { url, status, .. } => signed_decimal(status as int) + seq![' '] + url@,
        ObservationKind::NetworkComplete { request_id, .. } => seq!['c', 'o', 'm', 'p', 'l', 'e', 't', 'e', ' ']
            + request_id@,
        ObservationKind::NetworkError { url, error, .. } => url@ + seq![':', ' '] + error@,
        ObservationKind::ConsoleMessage { level, text, .. } => seq!['['] + level@ + seq![']', ' '] + text@,
        ObservationKind::Error { text, .. } => text@,
        ObservationKind::Navigation { url } => url@,
        ObservationKind::AnimationStarted { id } => seq!['s', 't', 'a', 'r', 't', 'e', 'd', ' '] + id@,
        ObservationKind::AnimationEnded { id } => seq!['e', 'n', 'd', 'e', 'd', ' '] + id@,
        ObservationKind::FrameCapture => seq!['f', 'r', 'a', 'm', 'e', ' ', 'c', 'a', 'p', 't', 'u', 'r', 'e', 'd'],
        ObservationKind::Lifecycle { name } => name@,
        ObservationKind::AxUpdate { node_count } => decimal(node_count as nat) + seq![
            ' ',
            'n',
            'o',
            'd',
            'e',
            's',
            ' ',
            'u',
            'p',
            'd',
            'a',
            't',
            'e',
            'd',
        ],
    }
}

/// Milliseconds since streaming started.
pub open spec fn stream_time(s: PageState, now: u64) -> u64 {
    (elapsed(now, s.stream_start) / 1_000_000) as u64
}

/// The stream work `r` for an observation `k` with `target`: nothing unless
/// streaming; a layout shift is handed on with its score, anything else as
/// a stream event with its category and detail.
pub open spec fn stream_of(s: PageState, k: ObservationKind, target: Option<String>, now: u64, r: Option<PageAction>) -> bool {
    if !s.streaming {
        r is None
    } else {
        match k {
            ObservationKind::LayoutShift { value_bits } => r == Some(
                PageAction::StreamLayoutShift { time_ms: stream_time(s, now), value_bits, target },
            ),
            _ => match r {
                Some(PageAction::Stream(e)) => {
                    &&& e.time_ms == stream_time(s, now)
                    &&& e.category@ == stream_category(k)
                    &&& e.detail@ == stream_detail(k)
                    &&& e.target == target
                },
                _ => false,
            },
        }
    }
}

/// A copy of an optional text.
pub fn copy_opt(o: &Option<String>) -> (r: Option<String>)
    ensures
        r == *o,
{
    match o {
        Some(t) => Some(t.clone()),
        None => None,
    }
}

/// The category and detail of an observation other than a layout shift.
fn stream_text(k: &ObservationKind) -> (r: (String, String))
    ensures
        r.0@ == stream_category(*k),
        !(k is LayoutShift) ==> r.1@ == stream_detail(*k),
{
    let mut c = String::new();
    let mut d = String::new();
    match k {
        ObservationKind::DomMutation(s) => {
            push_text(&mut c, "dom");
            push_text(&mut d, s.as_str());
            proof {
                reveal_strlit("dom");
            }
        },
        ObservationKind::LayoutShift { .. } => {
            push_text(&mut c, "layout");
            proof {
                reveal_strlit("layout");
            }
        },
        ObservationKind::NetworkRequest { url, method, .. } => {
            push_text(&mut c, "network");
            push_text(&mut d, method.as_str());
            push_text(&mut d, " ");
            push_text(&mut d, url.as_str());
            proof {
                reveal_strlit("network");
                reveal_strlit(" ");
            }
        },
        ObservationKind::NetworkResponse { url, status, .. } => {
            push_text(&mut c, "network");
            push_signed(&mut d, *status as i64);
            push_text(&mut d, " ");
            push_text(&mut d, url.as_str());
            proof {
                reveal_strlit("network");
                reveal_strlit(" ");
            }
        },
        ObservationKind::NetworkComplete { request_id, .. } => {
            push_text(&mut c, "network");
            push_text(&mut d, "complete ");
            push_text(&mut d, request_id.as_str());
            proof {
                reveal_strlit("network");
                reveal_strlit("complete ");
            }
        },
        ObservationKind::NetworkError { url, error, .. } => {
            push_text(&mut c, "error");
            push_text(&mut d, url.as_str());
            push_text(&mut d, ": ");
            push_text(&mut d, error.as_str());
            proof {
                reveal_strlit("error");
                reveal_strlit(": ");
            }
        },
        ObservationKind::ConsoleMessage { level, text, .. } => {
            push_text(&mut c, "console");
            push_text(&mut d, "[");
            push_text(&mut d, level.as_str());
            push_text(&mut d, "] ");
            push_text(&mut d, text.as_str());
            proof {
                reveal_strlit("console");
                reveal_strlit("[");
                reveal_strlit("] ");
            }
        },
        ObservationKind::Error { text, .. } => {
            push_text(&mut c, "error");
            push_text(&mut d, text.as_str());
            proof {
                reveal_strlit("error");
            }
        },
        ObservationKind::Navigation { url } => {
            push_text(&mut c, "navigation");
            push_text(&mut d, url.as_str());
            proof {
                reveal_strlit("navigation");
            }
        },
        ObservationKind::AnimationStarted { id } => {
            push_text(&mut c, "animation");
            push_text(&mut d, "started ");
            push_text(&mut d, id.as_str());
            proof {
                reveal_strlit("animation");
                reveal_strlit("started ");
            }
        },
        ObservationKind::AnimationEnded { id } => {
            push_text(&mut c, "animation");
            push_text(&mut d, "ended ");
            push_text(&mut d, id.as_str());
            proof {
                reveal_strlit("animation");
                reveal_strlit("ended ");
            }
        },
        ObservationKind::FrameCapture => {
            push_text(&mut c, "visual");
            push_text(&mut d, "frame captured");
            proof {
                reveal_strlit("visual");
                reveal_strlit("frame captured");
            }
        },
        ObservationKind::Lifecycle { name } => {
            push_text(&mut c, "lifecycle");
            push_text(&mut d, name.as_str());
            proof {
                reveal_strlit("lifecycle");
            }
        },
        ObservationKind::AxUpdate { node_count } => {
            push_text(&mut c, "accessibility");
            push_decimal(&mut d, *node_count as u64);
            push_text(&mut d, " nodes updated");
            proof {
                reveal_strlit("accessibility");
                reveal_strlit(" nodes updated");
            }
        },
    }
    proof {
        assert(c@ =~= stream_category(*k));
        if !(k is LayoutShift) {
            assert(d@ =~= stream_detail(*k));
        }
    }
    (c, d)
}

/// The stream work for an observation, as a list: empty unless streaming.
pub open spec fn stream_actions(s: PageState, k: ObservationKind, target: Option<String>, now: u64, actions: Seq<PageAction>) -> bool {
    if s.streaming {
        actions.len() == 1 && stream_of(s, k, target, now, Some(actions[0]))
    } else {
        actions.len() == 0
    }
}

/// The timeline of `after` is that of `before` with the observation `k`
/// added at `now` in the current epoch, and `actions` is its stream work.
pub open spec fn noted(before: PageState, after: PageState, k: ObservationKind, target: Option<String>, now: u64, actions: Seq<PageAction>) -> bool {
    &&& appended(before.timeline, after.timeline, seq![ObservationEvent { timestamp: now, epoch: before.page_epoch, kind: k }])
    &&& stream_actions(before, k, target, now, actions)
}

/// Like `noted`, for a DOM change described by `text`.
pub open spec fn noted_change(before: PageState, after: PageState, text: Seq<char>, now: u64, actions: Seq<PageAction>) -> bool {
    exists|d: String| d@ == text && #[trigger] noted(before, after, ObservationKind::DomMutation(d), None, now, actions)
}

/// The mutation-burst bookkeeping after one more DOM mutation at `now`:
/// once more than 500ms have passed since the last check, a count above
/// 100 asks for reconciliation, and the count restarts.
pub open spec fn burst_step(before: PageState, after: PageState, now: u64) -> bool {
    let count = before.mutation_burst_count + 1;
    if elapsed(now, before.last_burst_check) > 500_000_000 {
        &&& after.mutation_burst_count == 0
        &&& after.last_burst_check == now
        &&& after.needs_reconciliation == (before.needs_reconciliation || count > 100)
    } else {
        &&& after.mutation_burst_count == count
        &&& after.last_burst_check == before.last_burst_check
        &&& after.needs_reconciliation == before.needs_reconciliation
    }
}

/// "inserted <NAME> into node PARENT"
pub open spec fn inserted_text(name: Seq<char>, parent: i64) -> Seq<char> {
    "inserted <"@ + name + "> into node "@ + signed_decimal(parent as int)
}

/// "removed node ID from parent PARENT"
pub open spec fn removed_text(node_id: i64, parent: i64) -> Seq<char> {
    "removed node "@ + signed_decimal(node_id as int) + " from parent "@ + signed_decimal(parent as int)
}

/// "attr NAME="VALUE" on node ID"
pub open spec fn attr_text(name: Seq<char>, value: Seq<char>, node_id: i64) -> Seq<char> {
    "attr "@ + name + "=\""@ + value + "\" on node "@ + signed_decimal(node_id as int)
}

/// "text changed on node ID"
pub open spec fn text_changed_text(node_id: i64) -> Seq<char> {
    "text changed on node "@ + signed_decimal(node_id as int)
}

/// "inline style invalidated on node ID"
pub open spec fn style_text(node_id: i64) -> Seq<char> {
    "inline style invalidated on node "@ + signed_decimal(node_id as int)
}

/// The texts joined with single spaces.
pub open spec fn joined(parts: Seq<String>) -> Seq<char>
    decreases parts.len(),
{
    if parts.len() == 0 {
        Seq::empty()
    } else if parts.len() == 1 {
        parts[0]@
    } else {
        joined(parts.subrange(0, parts.len() - 1)) + seq![' '] + parts[parts.len() - 1]@
    }
}

/// Room in the tree for `n` more nodes.
pub open spec fn tree_room(t: LiveDomTree, n: nat) -> bool {
    &&& t.nodes().len() + n < u32::MAX
    &&& t.clock() + n <= u64::MAX
}

/// The machine limits an event must leave room for: counters that would
/// overflow, and the capacity of the tree's slot map.
pub open spec fn fits(s: PageState, e: SensorEvent) -> bool {
    let room = s.timeline.pushed() < u64::MAX;
    let burst = s.mutation_burst_count < u32::MAX;
    match e {
        SensorEvent::DocumentUpdated => room && s.page_epoch < u64::MAX,
        SensorEvent::SetChildNodes(d) => tree_room(s.dom_tree, preorder_list(d.nodes@).len()) && burst,
        SensorEvent::ChildNodeInserted(d) => tree_room(s.dom_tree, preorder(d.node).len()) && room && burst,
        SensorEvent::ChildNodeRemoved(_) => room && burst,
        SensorEvent::AttributeModified(_) => room,
        SensorEvent::CharacterDataModified(_) => room,
        SensorEvent::InlineStyleInvalidated(d) => s.timeline.pushed() + d.node_ids@.len() < u64::MAX,
        SensorEvent::ShadowRootPushed(d) => tree_room(s.dom_tree, preorder(d.root).len()),
        SensorEvent::PseudoElementAdded(d) => tree_room(s.dom_tree, preorder(d.pseudo_element).len()),
        SensorEvent::FrameNavigated(d) => room && (d.frame.parent_id is None ==> s.page_epoch < u64::MAX
            && s.stability.active_navigations < u32::MAX),
        SensorEvent::AttributeRemoved(_) => true,
        SensorEvent::ChildNodeCountUpdated(_) => true,
        SensorEvent::ShadowRootPopped(_) => true,
        SensorEvent::PseudoElementRemoved(_) => true,
        SensorEvent::FrameStartedLoading { .. } => true,
        SensorEvent::FrameStoppedLoading { .. } => true,
        SensorEvent::FrameResized => true,
        SensorEvent::WebSocketCreated(_) => true,
        SensorEvent::WebSocketClosed { .. } => true,
        SensorEvent::PerformanceMetrics => true,
        SensorEvent::AttachedToTarget(_) => true,
        SensorEvent::DetachedFromTarget(_) => true,
        _ => room,
    }
}

fn inserted_desc(name: &String, parent: i64) -> (r: String)
    ensures
        r@ == inserted_text(name@, parent),
{
    let mut d = String::new();
    push_text(&mut d, "inserted <");
    push_text(&mut d, name.as_str());
    push_text(&mut d, "> into node ");
    push_signed(&mut d, parent);
    proof {
        assert(d@ =~= inserted_text(name@, parent));
    }
    d
}

fn removed_desc(node_id: i64, parent: i64) -> (r: String)
    ensures
        r@ == removed_text(node_id, parent),
{
    let mut d = String::new();
    push_text(&mut d, "removed node ");
    push_signed(&mut d, node_id);
    push_text(&mut d, " from parent ");
    push_signed(&mut d, parent);
    proof {
        assert(d@ =~= removed_text(node_id, parent));
    }
    d
}

fn attr_desc(name: &String, value: &String, node_id: i64) -> (r: String)
    ensures
        r@ == attr_text(name@, value@, node_id),
{
    let mut d = String::new();
    push_text(&mut d, "attr ");
    push_text(&mut d, name.as_str());
    push_text(&mut d, "=\"");
    push_text(&mut d, value.as_str());
    push_text(&mut d, "\" on node ");
    push_signed(&mut d, node_id);
    proof {
        assert(d@ =~= attr_text(name@, value@, node_id));
    }
    d
}

fn text_changed_desc(node_id: i64) -> (r: String)
    ensures
        r@ == text_changed_text(node_id),
{
    let mut d = String::new();
    push_text(&mut d, "text changed on node ");
    push_signed(&mut d, node_id);
    proof {
        assert(d@ =~= text_changed_text(node_id));
    }
    d
}

fn style_desc(node_id: i64) -> (r: String)
    ensures
        r@ == style_text(node_id),
{
    let mut d = String::new();
    push_text(&mut d, "inline style invalidated on node ");
    push_signed(&mut d, node_id);
    proof {
        assert(d@ =~= style_text(node_id));
    }
    d
}

/// The text of one console argument: its description, else the JSON text of
/// its value, else nothing.
pub fn console_arg_text(description: Option<String>, value_json: Option<String>) -> (r: String)
    ensures
        r@ == match description {
            Some(d) => d@,
            None => match value_json {
                Some(v) => v@,
                None => Seq::<char>::empty(),
            },
        },
{
    match description {
        Some(d) => d,
        None => match value_json {
            Some(v) => v,
            None => String::new(),
        },
    }
}

/// Whether a watch filter shows events of this category: `all` shows
/// every category, any other filter only its own.
pub fn shows_event(filter: &str, category: &str) -> (r: bool)
    ensures
        r == (filter@ == "all"@ || category@ == filter@),
{
    same_text(filter, "all") || same_text(category, filter)
}

/// The texts joined with single spaces.
pub fn join_args(args: &Vec<String>) -> (r: String)
    ensures
        r@ == joined(args@),
{
    let mut d = String::new();
    let mut i: usize = 0;
    while i < args.len()
        invariant
            i <= args@.len(),
            d@ == joined(args@.take(i as int)),
        decreases args@.len() - i,
    {
        proof {
            assert(args@.take(i + 1).subrange(0, i as int) =~= args@.take(i as int));
        }
        if i > 0 {
            push_text(&mut d, " ");
            proof {
                reveal_strlit(" ");
            }
        }
        push_text(&mut d, args[i].as_str());
        proof {
            if i == 0 {
                assert(d@ =~= joined(args@.take(1)));
            } else {
                assert(d@ =~= joined(args@.take(i + 1)));
            }
        }
        i = i + 1;
    }
    proof {
        assert(args@.take(args@.len() as int) =~= args@);
    }
    d
}

/// The stability tracker after a DOM mutation at `now`.
pub open spec fn mutated(t: StabilityTracker, now: u64) -> StabilityTracker {
    StabilityTracker { last_dom_mutation: now, ..t }
}

/// The stability tracker after network activity (or completion) at `now`.
pub open spec fn networked(t: StabilityTracker, now: u64) -> StabilityTracker {
    StabilityTracker { last_meaningful_network: now, ..t }
}

/// The tree after a DOM event, when the parent id is known or not.
pub open spec fn tree_attached(b: LiveDomTree, a: LiveDomTree, parent: i64, d: crate::dom_node::DomNode, which: LinkList, place: Placement) -> bool {
    if b.ids().contains_key(parent) {
        attached(b, a, b.ids()[parent], d, which, place)
    } else {
        same_tree(b, a)
    }
}

/// `a` holds the style notes for `ids`, one per id, and their stream work.
pub open spec fn noted_styles(b: PageState, a: PageState, ids: Seq<i64>, now: u64, acts: Seq<PageAction>) -> bool {
    exists|es: Seq<ObservationEvent>|
        #![trigger appended(b.timeline, a.timeline, es)]
        {
            &&& appended(b.timeline, a.timeline, es)
            &&& es.len() == ids.len()
            &&& forall|i: int|
                0 <= i < es.len() ==> {
                    &&& (#[trigger] es[i]).timestamp == now
                    &&& es[i].epoch == b.page_epoch
                    &&& (es[i].kind matches ObservationKind::DomMutation(t) && t@ == style_text(ids[i]))
                }
            &&& if b.streaming {
                &&& acts.len() == ids.len()
                &&& forall|i: int| 0 <= i < acts.len() ==> stream_of(b, es[i].kind, None, now, Some(#[trigger] acts[i]))
            } else {
                acts.len() == 0
            }
        }
}

/// What a sensor event of the main target does to the page state, and the
/// outside work it asks for, in order.
pub open spec fn sensor_step(b: PageState, a: PageState, e: SensorEvent, now: u64, acts: Seq<PageAction>) -> bool {
    match e {
        SensorEvent::DocumentUpdated => {
            let mid = PageState { page_epoch: (b.page_epoch + 1) as u64, ..b };
            &&& a == PageState {
                page_epoch: a.page_epoch,
                dom_tree: a.dom_tree,
                stability: a.stability,
                timeline: a.timeline,
                needs_reconciliation: a.needs_reconciliation,
                ..b
            }
            &&& a.page_epoch == b.page_epoch + 1
            &&& a.dom_tree.nodes() == Map::<u64, crate::dom_tree::TreeNode>::empty()
            &&& a.dom_tree.ids() == Map::<i64, u64>::empty()
            &&& a.dom_tree.backends() == Map::<i64, u64>::empty()
            &&& a.dom_tree.root() is None
            &&& a.stability == mutated(b.stability, now)
            &&& a.needs_reconciliation
            &&& acts.len() >= 1
            &&& acts.last() == PageAction::FetchDocument
            &&& noted_change(mid, a, "documentUpdated (epoch bump)"@, now, acts.drop_last())
        },
        SensorEvent::SetChildNodes(d) => {
            &&& a == PageState {
                dom_tree: a.dom_tree,
                stability: a.stability,
                mutation_burst_count: a.mutation_burst_count,
                last_burst_check: a.last_burst_check,
                needs_reconciliation: a.needs_reconciliation,
                ..b
            }
            &&& if b.dom_tree.ids().contains_key(d.parent_id) {
                children_replaced(b.dom_tree, a.dom_tree, b.dom_tree.ids()[d.parent_id], d.nodes@)
            } else {
                same_tree(b.dom_tree, a.dom_tree)
            }
            &&& a.stability == mutated(b.stability, now)
            &&& burst_step(b, a, now)
            &&& acts.len() == 0
        },
        SensorEvent::ChildNodeInserted(d) => {
            &&& a == PageState {
                dom_tree: a.dom_tree,
                stability: a.stability,
                timeline: a.timeline,
                mutation_burst_count: a.mutation_burst_count,
                last_burst_check: a.last_burst_check,
                needs_reconciliation: a.needs_reconciliation,
                ..b
            }
            &&& tree_attached(b.dom_tree, a.dom_tree, d.parent_node_id, d.node, LinkList::Children, Placement::After(d.previous_node_id))
            &&& a.stability == mutated(b.stability, now)
            &&& noted_change(b, a, inserted_text(d.node.node_name@, d.parent_node_id), now, acts)
            &&& burst_step(b, a, now)
        },
        SensorEvent::ChildNodeRemoved(d) => {
            &&& a == PageState {
                dom_tree: a.dom_tree,
                stability: a.stability,
                timeline: a.timeline,
                mutation_burst_count: a.mutation_burst_count,
                last_burst_check: a.last_burst_check,
                needs_reconciliation: a.needs_reconciliation,
                ..b
            }
            &&& detached(b.dom_tree, a.dom_tree, d.parent_node_id, d.node_id, LinkList::Children)
            &&& a.stability == mutated(b.stability, now)
            &&& noted_change(b, a, removed_text(d.node_id, d.parent_node_id), now, acts)
            &&& burst_step(b, a, now)
        },
        SensorEvent::AttributeModified(d) => {
            &&& a == PageState { dom_tree: a.dom_tree, stability: a.stability, timeline: a.timeline, ..b }
            &&& attribute_set(b.dom_tree, a.dom_tree, d.node_id, d.name@, d.value@)
            &&& a.stability == mutated(b.stability, now)
            &&& noted_change(b, a, attr_text(d.name@, d.value@, d.node_id), now, acts)
        },
        SensorEvent::AttributeRemoved(d) => {
            &&& a == PageState { dom_tree: a.dom_tree, stability: a.stability, ..b }
            &&& attribute_removed(b.dom_tree, a.dom_tree, d.node_id, d.name@)
            &&& a.stability == mutated(b.stability, now)
            &&& acts.len() == 0
        },
        SensorEvent::CharacterDataModified(d) => {
            &&& a == PageState { dom_tree: a.dom_tree, stability: a.stability, timeline: a.timeline, ..b }
            &&& text_set(b.dom_tree, a.dom_tree, d.node_id, d.character_data@)
            &&& a.stability == mutated(b.stability, now)
            &&& noted_change(b, a, text_changed_text(d.node_id), now, acts)
        },
        SensorEvent::ChildNodeCountUpdated(d) => {
            &&& a == PageState { dom_tree: a.dom_tree, ..b }
            &&& count_set(b.dom_tree, a.dom_tree, d.node_id, d.child_node_count)
            &&& acts.len() == 0
        },
        SensorEvent::InlineStyleInvalidated(d) => {
            &&& a == PageState { stability: a.stability, timeline: a.timeline, ..b }
            &&& a.stability == StabilityTracker { last_style_change: now, ..b.stability }
            &&& noted_styles(b, a, d.node_ids@, now, acts)
        },
        SensorEvent::ShadowRootPushed(d) => {
            &&& a == PageState { dom_tree: a.dom_tree, stability: a.stability, ..b }
            &&& tree_attached(b.dom_tree, a.dom_tree, d.host_id, d.root, LinkList::ShadowRoots, Placement::Back)
            &&& a.stability == mutated(b.stability, now)
            &&& acts.len() == 0
        },
        SensorEvent::ShadowRootPopped(d) => {
            &&& a == PageState { dom_tree: a.dom_tree, stability: a.stability, ..b }
            &&& detached(b.dom_tree, a.dom_tree, d.host_id, d.root.node_id, LinkList::ShadowRoots)
            &&& a.stability == mutated(b.stability, now)
            &&& acts.len() == 0
        },
        SensorEvent::PseudoElementAdded(d) => {
            &&& a == PageState { dom_tree: a.dom_tree, stability: a.stability, ..b }
            &&& tree_attached(b.dom_tree, a.dom_tree, d.parent_id, d.pseudo_element, LinkList::PseudoElements, Placement::Back)
            &&& a.stability == mutated(b.stability, now)
            &&& acts.len() == 0
        },
        SensorEvent::PseudoElementRemoved(d) => {
            &&& a == PageState { dom_tree: a.dom_tree, stability: a.stability, ..b }
            &&& detached(b.dom_tree, a.dom_tree, d.parent_id, d.pseudo_element.node_id, LinkList::PseudoElements)
            &&& a.stability == mutated(b.stability, now)
            &&& acts.len() == 0
        },
        SensorEvent::LifecycleEvent { frame_id, name } => {
            &&& a == PageState { stability: a.stability, timeline: a.timeline, ..b }
            &&& a.stability == if name@ == "DOMContentLoaded"@ {
                mutated(b.stability, now)
            } else {
                b.stability
            }
            &&& noted(b, a, ObservationKind::Lifecycle { name }, None, now, acts)
        },
        SensorEvent::FrameNavigated(d) => {
            if d.frame.parent_id is None {
                let mid = PageState { page_epoch: (b.page_epoch + 1) as u64, ..b };
                &&& a == PageState {
                    page_epoch: a.page_epoch,
                    main_frame_id: a.main_frame_id,
                    stability: a.stability,
                    timeline: a.timeline,
                    ..b
                }
                &&& a.page_epoch == b.page_epoch + 1
                &&& a.main_frame_id == Some(d.frame.id)
                &&& a.stability == StabilityTracker {
                    last_navigation: now,
                    active_navigations: (b.stability.active_navigations + 1) as u32,
                    wait_start: Some(now),
                    ..b.stability
                }
                &&& noted(mid, a, ObservationKind::Navigation { url: d.frame.url }, None, now, acts)
            } else {
                &&& a == PageState { timeline: a.timeline, ..b }
                &&& noted(b, a, ObservationKind::Navigation { url: d.frame.url }, None, now, acts)
            }
        },
        SensorEvent::FrameStartedLoading { .. } => a == b && acts.len() == 0,
        SensorEvent::FrameStoppedLoading { .. } => {
            &&& a == PageState { stability: a.stability, ..b }
            &&& a.stability == StabilityTracker {
                active_navigations: if b.stability.active_navigations > 0 {
                    (b.stability.active_navigations - 1) as u32
                } else {
                    0
                },
                ..b.stability
            }
            &&& acts.len() == 0
        },
        SensorEvent::NavigatedWithinDocument { frame_id, url } => {
            &&& a == PageState { stability: a.stability, timeline: a.timeline, ..b }
            &&& a.stability == mutated(b.stability, now)
            &&& noted(b, a, ObservationKind::Navigation { url }, None, now, acts)
        },
        SensorEvent::FrameResized => {
            &&& a == PageState { stability: a.stability, ..b }
            &&& a.stability == StabilityTracker { last_layout_shift: now, ..b.stability }
            &&& acts.len() == 0
        },
        SensorEvent::ScreencastFrame => {
            &&& a == PageState { timeline: a.timeline, ..b }
            &&& noted(b, a, ObservationKind::FrameCapture, None, now, acts)
        },
        SensorEvent::RequestWillBeSent { request_id, request } => {
            &&& a == PageState { network: a.network, stability: a.stability, timeline: a.timeline, ..b }
            &&& request_sent(b.network, a.network, request_id@, request.url@, request.method@)
            &&& a.stability == networked(b.stability, now)
            &&& noted(
                b,
                a,
                ObservationKind::NetworkRequest { url: request.url, method: request.method, target: None },
                None,
                now,
                acts,
            )
        },
        SensorEvent::ResponseReceived { request_id, response } => {
            &&& a == PageState { network: a.network, timeline: a.timeline, ..b }
            &&& response_noted(b.network, a.network, request_id@, response.status)
            &&& noted(
                b,
                a,
                ObservationKind::NetworkResponse { url: response.url, status: response.status, target: None },
                None,
                now,
                acts,
            )
        },
        SensorEvent::LoadingFinished { request_id } => {
            &&& a == PageState { network: a.network, stability: a.stability, timeline: a.timeline, ..b }
            &&& request_dropped(b.network, a.network, request_id@)
            &&& a.stability == networked(b.stability, now)
            &&& noted(b, a, ObservationKind::NetworkComplete { request_id, target: None }, None, now, acts)
        },
        SensorEvent::LoadingFailed { request_id, error_text } => {
            &&& a == PageState { network: a.network, stability: a.stability, timeline: a.timeline, ..b }
            &&& request_dropped(b.network, a.network, request_id@)
            &&& a.stability == networked(b.stability, now)
            &&& exists|u: String|
                u@ == (if b.network.requests().contains_key(request_id@) {
                    b.network.requests()[request_id@].url@
                } else {
                    Seq::empty()
                }) && #[trigger] noted(
                    b,
                    a,
                    ObservationKind::NetworkError { url: u, error: error_text, target: None },
                    None,
                    now,
                    acts,
                )
        },
        SensorEvent::WebSocketCreated(d) => {
            &&& a == PageState { network: a.network, stability: a.stability, ..b }
            &&& socket_opened(b.network, a.network, d.request_id@, d.url@)
            &&& a.stability.long_lived_connections@ == b.stability.long_lived_connections@.insert(d.request_id@)
            &&& a.stability == StabilityTracker { long_lived_connections: a.stability.long_lived_connections, ..b.stability }
            &&& acts.len() == 0
        },
        SensorEvent::WebSocketClosed { request_id } => {
            &&& a == PageState { network: a.network, stability: a.stability, ..b }
            &&& socket_closed(b.network, a.network, request_id@)
            &&& a.stability.long_lived_connections@ == b.stability.long_lived_connections@.remove(request_id@)
            &&& a.stability == StabilityTracker { long_lived_connections: a.stability.long_lived_connections, ..b.stability }
            &&& acts.len() == 0
        },
        SensorEvent::ConsoleApiCalled { call_type, args } => {
            &&& a == PageState { timeline: a.timeline, ..b }
            &&& exists|t: String|
                t@ == joined(args@) && #[trigger] noted(
                    b,
                    a,
                    ObservationKind::ConsoleMessage { level: call_type, text: t, target: None },
                    None,
                    now,
                    acts,
                )
        },
        SensorEvent::ExceptionThrown { text } => {
            &&& a == PageState { timeline: a.timeline, ..b }
            &&& noted(b, a, ObservationKind::Error { text, target: None }, None, now, acts)
        },
        SensorEvent::LogEntryAdded { level, text } => {
            &&& a == PageState { timeline: a.timeline, ..b }
            &&& noted(b, a, ObservationKind::ConsoleMessage { level, text, target: None }, None, now, acts)
        },
        SensorEvent::AnimationStarted { id } => {
            &&& a == PageState { animations: a.animations, stability: a.stability, timeline: a.timeline, ..b }
            &&& a.animations@ == b.animations@.insert(id@, now)
            &&& a.stability == StabilityTracker { last_animation_update: now, ..b.stability }
            &&& noted(b, a, ObservationKind::AnimationStarted { id }, None, now, acts)
        },
        SensorEvent::AnimationCanceled(d) => {
            &&& a == PageState { animations: a.animations, stability: a.stability, timeline: a.timeline, ..b }
            &&& a.animations@ == b.animations@.remove(d.id@)
            &&& a.stability == StabilityTracker { last_animation_update: now, ..b.stability }
            &&& noted(b, a, ObservationKind::AnimationEnded { id: d.id }, None, now, acts)
        },
        SensorEvent::PerformanceMetrics => a == b && acts.len() == 0,
        SensorEvent::LayoutShift { value_bits } => {
            &&& a == PageState { stability: a.stability, timeline: a.timeline, ..b }
            &&& a.stability == StabilityTracker { last_layout_shift: now, ..b.stability }
            &&& noted(b, a, ObservationKind::LayoutShift { value_bits }, None, now, acts)
        },
        SensorEvent::AttachedToTarget(d) => {
            &&& a == PageState { child_targets: a.child_targets, ..b }
            &&& a.child_targets@ == b.child_targets@.insert(d.session_id@, d.target_info)
            &&& if d.target_info.target_type@ == "page"@ || d.target_info.target_type@ == "iframe"@ {
                acts.len() == 1 && (acts[0] matches PageAction::EnableChildDomains(sid) && sid@ == d.session_id@)
            } else {
                acts.len() == 0
            }
        },
        SensorEvent::DetachedFromTarget(d) => {
            &&& a == PageState { child_targets: a.child_targets, ..b }
            &&& a.child_targets@ == b.child_targets@.remove(d.session_id@)
            &&& acts.len() == 0
        },
        SensorEvent::AxNodesUpdated { node_count } => {
            &&& a == PageState { timeline: a.timeline, ..b }
            &&& noted(b, a, ObservationKind::AxUpdate { node_count }, None, now, acts)
        },
    }
}

/// The room a child-target event needs in the timeline.
pub open spec fn fits_child(s: PageState, e: SensorEvent) -> bool {
    match e {
        SensorEvent::RequestWillBeSent { .. } => s.timeline.pushed() < u64::MAX,
        SensorEvent::ResponseReceived { .. } => s.timeline.pushed() < u64::MAX,
        SensorEvent::LoadingFinished { .. } => s.timeline.pushed() < u64::MAX,
        SensorEvent::LoadingFailed { .. } => s.timeline.pushed() < u64::MAX,
        SensorEvent::ConsoleApiCalled { .. } => s.timeline.pushed() < u64::MAX,
        SensorEvent::ExceptionThrown { .. } => s.timeline.pushed() < u64::MAX,
        SensorEvent::LogEntryAdded { .. } => s.timeline.pushed() < u64::MAX,
        _ => true,
    }
}

/// What an event of the child target `sid` does: network, console and
/// error events are noted with the child as their target (network activity
/// also counts for stability), target events update the child targets, and
/// anything else is skipped.
pub open spec fn child_step(b: PageState, a: PageState, e: SensorEvent, sid: String, now: u64, acts: Seq<PageAction>) -> bool {
    let t = Some(sid);
    match e {
        SensorEvent::RequestWillBeSent { request_id, request } => {
            &&& a == PageState { stability: a.stability, timeline: a.timeline, ..b }
            &&& a.stability == networked(b.stability, now)
            &&& noted(b, a, ObservationKind::NetworkRequest { url: request.url, method: request.method, target: t }, t, now, acts)
        },
        SensorEvent::ResponseReceived { request_id, response } => {
            &&& a == PageState { timeline: a.timeline, ..b }
            &&& noted(
                b,
                a,
                ObservationKind::NetworkResponse { url: response.url, status: response.status, target: t },
                t,
                now,
                acts,
            )
        },
        SensorEvent::LoadingFinished { request_id } => {
            &&& a == PageState { stability: a.stability, timeline: a.timeline, ..b }
            &&& a.stability == networked(b.stability, now)
            &&& noted(b, a, ObservationKind::NetworkComplete { request_id, target: t }, t, now, acts)
        },
        SensorEvent::LoadingFailed { request_id, error_text } => {
            &&& a == PageState { stability: a.stability, timeline: a.timeline, ..b }
            &&& a.stability == networked(b.stability, now)
            &&& exists|u: String|
                u@ == Seq::<char>::empty() && #[trigger] noted(
                    b,
                    a,
                    ObservationKind::NetworkError { url: u, error: error_text, target: t },
                    t,
                    now,
                    acts,
                )
        },
        SensorEvent::ConsoleApiCalled { call_type, args } => {
            &&& a == PageState { timeline: a.timeline, ..b }
            &&& exists|x: String|
                x@ == joined(args@) && #[trigger] noted(
                    b,
                    a,
                    ObservationKind::ConsoleMessage { level: call_type, text: x, target: t },
                    t,
                    now,
                    acts,
                )
        },
        SensorEvent::ExceptionThrown { text } => {
            &&& a == PageState { timeline: a.timeline, ..b }
            &&& noted(b, a, ObservationKind::Error { text, target: t }, t, now, acts)
        },
        SensorEvent::LogEntryAdded { level, text } => {
            &&& a == PageState { timeline: a.timeline, ..b }
            &&& noted(b, a, ObservationKind::ConsoleMessage { level, text, target: t }, t, now, acts)
        },
        SensorEvent::AttachedToTarget(d) => {
            &&& a == PageState { child_targets: a.child_targets, ..b }
            &&& a.child_targets@ == b.child_targets@.insert(d.session_id@, d.target_info)
            &&& acts.len() == 0
        },
        SensorEvent::DetachedFromTarget(d) => {
            &&& a == PageState { child_targets: a.child_targets, ..b }
            &&& a.child_targets@ == b.child_targets@.remove(d.session_id@)
            &&& acts.len() == 0
        },
        _ => a == b && acts.len() == 0,
    }
}

/// What the observer reports once an action has settled, before the visual
/// comparison is added.
pub struct ReportDraft {
    pub action: String,
    pub state: StabilityState,
    pub time_to_stable_ms: u64,
    pub dom_mutations: Vec<String>,
    /// Layout-shift scores, as the bit patterns of their `f64`s.
    pub layout_shift_bits: Vec<u64>,
    pub network_requests: Vec<String>,
    pub errors: Vec<String>,
    pub console_messages: Vec<String>,
    pub total_events: usize,
    pub action_error: Option<String>,
    pub network_errors: Vec<String>,
}

/// The texts of a list of strings.
pub open spec fn texts(v: Seq<String>) -> Seq<Seq<char>> {
    v.map_values(|t: String| t@)
}

/// DOM change descriptions among `evs`, in order.
pub open spec fn mutation_texts(evs: Seq<ObservationEvent>) -> Seq<Seq<char>>
    decreases evs.len(),
{
    if evs.len() == 0 {
        Seq::empty()
    } else {
        let rest = mutation_texts(evs.drop_last());
        match evs.last().kind {
            ObservationKind::DomMutation(t) => rest.push(t@),
            _ => rest,
        }
    }
}

/// Layout-shift scores among `evs`, in order.
pub open spec fn shift_bits(evs: Seq<ObservationEvent>) -> Seq<u64>
    decreases evs.len(),
{
    if evs.len() == 0 {
        Seq::empty()
    } else {
        let rest = shift_bits(evs.drop_last());
        match evs.last().kind {
            ObservationKind::LayoutShift { value_bits } => rest.push(value_bits),
            _ => rest,
        }
    }
}

/// "METHOD URL" for each request among `evs`.
pub open spec fn request_texts(evs: Seq<ObservationEvent>) -> Seq<Seq<char>>
    decreases evs.len(),
{
    if evs.len() == 0 {
        Seq::empty()
    } else {
        let rest = request_texts(evs.drop_last());
        match evs.last().kind {
            ObservationKind::NetworkRequest { url, method, .. } => rest.push(method@ + " "@ + url@),
            _ => rest,
        }
    }
}

/// The text of each error among `evs`.
pub open spec fn error_texts(evs: Seq<ObservationEvent>) -> Seq<Seq<char>>
    decreases evs.len(),
{
    if evs.len() == 0 {
        Seq::empty()
    } else {
        let rest = error_texts(evs.drop_last());
        match evs.last().kind {
            ObservationKind::Error { text, .. } => rest.push(text@),
            _ => rest,
        }
    }
}

/// "[LEVEL] TEXT" for each console message among `evs`.
pub open spec fn console_texts(evs: Seq<ObservationEvent>) -> Seq<Seq<char>>
    decreases evs.len(),
{
    if evs.len() == 0 {
        Seq::empty()
    } else {
        let rest = console_texts(evs.drop_last());
        match evs.last().kind {
            ObservationKind::ConsoleMessage { level, text, .. } => rest.push("["@ + level@ + "] "@ + text@),
            _ => rest,
        }
    }
}

/// "URL: ERROR" for each failed request among `evs`, and "URL: HTTP STATUS"
/// for each response with a status of 400 or more.
pub open spec fn network_error_texts(evs: Seq<ObservationEvent>) -> Seq<Seq<char>>
    decreases evs.len(),
{
    if evs.len() == 0 {
        Seq::empty()
    } else {
        let rest = network_error_texts(evs.drop_last());
        match evs.last().kind {
            ObservationKind::NetworkError { url, error, .. } => rest.push(url@ + ": "@ + error@),
            ObservationKind::NetworkResponse { url, status, .. } => if status >= 400 {
                rest.push(url@ + ": HTTP "@ + signed_decimal(status as int))
            } else {
                rest
            },
            _ => rest,
        }
    }
}

/// The report drafted from the events `evs` of an action.
pub open spec fn drafted(d: ReportDraft, evs: Seq<ObservationEvent>) -> bool {
    &&& texts(d.dom_mutations@) == mutation_texts(evs)
    &&& d.layout_shift_bits@ == shift_bits(evs)
    &&& texts(d.network_requests@) == request_texts(evs)
    &&& texts(d.errors@) == error_texts(evs)
    &&& texts(d.console_messages@) == console_texts(evs)
    &&& texts(d.network_errors@) == network_error_texts(evs)
    &&& d.total_events == evs.len()
}

/// Milliseconds from the action's start to `now`, zero without a start.
pub open spec fn action_ms(start: Option<u64>, now: u64) -> u64 {
    match start {
        Some(s) => (elapsed(now, s) / 1_000_000) as u64,
        None => 0,
    }
}

/// The periodic check at `now` took the page from `b` to `a` with outcome
/// `r`: the stability tracker stepped; once fully settled or timed out
/// with an action running, the action ended and `r` is its report, drafted
/// from the events since it started; otherwise nothing else changed.
pub open spec fn stability_checked(b: PageState, a: PageState, now: u64, r: Option<ReportDraft>) -> bool {
    let pending = b.network.pending_ids().len();
    let anims = b.animations.entries().len() as u32;
    let (state, tracker) = check_spec(b.stability, now, pending as usize, anims);
    let evs = since_marker(b.timeline.events(), b.timeline.marker());
    &&& a.stability == tracker
    &&& if (state is FullySettled || state is TimedOut) && b.current_action is Some {
        &&& a == (PageState {
            stability: tracker,
            current_action: None,
            action_start: None,
            last_action_error: None,
            ..b
        })
        &&& r matches Some(d) && {
            &&& d.action == b.current_action->0
            &&& d.state == state
            &&& d.time_to_stable_ms == action_ms(b.action_start, now)
            &&& d.action_error == b.last_action_error
            &&& drafted(d, evs)
        }
    } else {
        &&& a == (PageState { stability: tracker, ..b })
        &&& r is None
    }
}

/// An action is reported once: after a check that drafted its report, the
/// next check reports nothing until a new action starts.
pub proof fn law_report_once(s0: PageState, s1: PageState, s2: PageState, t1: u64, t2: u64, r2: Option<ReportDraft>)
    requires
        exists|r1: ReportDraft| #[trigger] stability_checked(s0, s1, t1, Some(r1)),
        stability_checked(s1, s2, t2, r2),
    ensures
        r2 is None,
{
}

/// DOM and page events from a child target change nothing and ask for
/// nothing: only the main target's document is mirrored.
pub proof fn law_child_dom_ignored(b: PageState, a: PageState, e: SensorEvent, sid: String, now: u64, acts: Seq<PageAction>)
    requires
        is_dom_event(e) || is_page_event(e),
        child_step(b, a, e, sid, now, acts),
    ensures
        a == b,
        acts.len() == 0,
{
}

/// A document update starts a new epoch with an empty tree and asks for
/// the new document, last.
pub proof fn law_document_update_resets(b: PageState, a: PageState, now: u64, acts: Seq<PageAction>)
    requires
        sensor_step(b, a, SensorEvent::DocumentUpdated, now, acts),
    ensures
        a.page_epoch == b.page_epoch + 1,
        a.dom_tree.nodes().len() == 0,
        acts.last() == PageAction::FetchDocument,
        a.needs_reconciliation,
{
}

/// DOM events.
pub open spec fn is_dom_event(e: SensorEvent) -> bool {
    ||| e is DocumentUpdated
    ||| e is SetChildNodes
    ||| e is ChildNodeInserted
    ||| e is ChildNodeRemoved
    ||| e is AttributeModified
    ||| e is AttributeRemoved
    ||| e is CharacterDataModified
    ||| e is ChildNodeCountUpdated
    ||| e is InlineStyleInvalidated
    ||| e is ShadowRootPushed
    ||| e is ShadowRootPopped
    ||| e is PseudoElementAdded
    ||| e is PseudoElementRemoved
}

/// Page events.
pub open spec fn is_page_event(e: SensorEvent) -> bool {
    ||| e is LifecycleEvent
    ||| e is FrameNavigated
    ||| e is FrameStartedLoading
    ||| e is FrameStoppedLoading
    ||| e is NavigatedWithinDocument
    ||| e is FrameResized
    ||| e is ScreencastFrame
}

/// Network events.
pub open spec fn is_network_event(e: SensorEvent) -> bool {
    ||| e is RequestWillBeSent
    ||| e is ResponseReceived
    ||| e is LoadingFinished
    ||| e is LoadingFailed
    ||| e is WebSocketCreated
    ||| e is WebSocketClosed
}

fn is_dom_event_of(e: &SensorEvent) -> (r: bool)
    ensures
        r == is_dom_event(*e),
{
    match e {
        SensorEvent::DocumentUpdated => true,
        SensorEvent::SetChildNodes(_) => true,
        SensorEvent::ChildNodeInserted(_) => true,
        SensorEvent::ChildNodeRemoved(_) => true,
        SensorEvent::AttributeModified(_) => true,
        SensorEvent::AttributeRemoved(_) => true,
        SensorEvent::CharacterDataModified(_) => true,
        SensorEvent::ChildNodeCountUpdated(_) => true,
        SensorEvent::InlineStyleInvalidated(_) => true,
        SensorEvent::ShadowRootPushed(_) => true,
        SensorEvent::ShadowRootPopped(_) => true,
        SensorEvent::PseudoElementAdded(_) => true,
        SensorEvent::PseudoElementRemoved(_) => true,
        _ => false,
    }
}

fn is_page_event_of(e: &SensorEvent) -> (r: bool)
    ensures
        r == is_page_event(*e),
{
    match e {
        SensorEvent::LifecycleEvent { .. } => true,
        SensorEvent::FrameNavigated(_) => true,
        SensorEvent::FrameStartedLoading { .. } => true,
        SensorEvent::FrameStoppedLoading { .. } => true,
        SensorEvent::NavigatedWithinDocument { .. } => true,
        SensorEvent::FrameResized => true,
        SensorEvent::ScreencastFrame => true,
        _ => false,
    }
}

fn is_network_event_of(e: &SensorEvent) -> (r: bool)
    ensures
        r == is_network_event(*e),
{
    match e {
        SensorEvent::RequestWillBeSent { .. } => true,
        SensorEvent::ResponseReceived { .. } => true,
        SensorEvent::LoadingFinished { .. } => true,
        SensorEvent::LoadingFailed { .. } => true,
        SensorEvent::WebSocketCreated(_) => true,
        SensorEvent::WebSocketClosed { .. } => true,
        _ => false,
    }
}

/// Draft the report of an action from its events.
fn draft_report(
    events: &Vec<&ObservationEvent>,
    action: String,
    state: StabilityState,
    time_to_stable_ms: u64,
    action_error: Option<String>,
) -> (d: ReportDraft)
    ensures
        d.action == action,
        d.state == state,
        d.time_to_stable_ms == time_to_stable_ms,
        d.action_error == action_error,
        drafted(d, events@.unref()),
{
    let ghost evs = events@.unref();
    let mut dom_mutations: Vec<String> = Vec::new();
    let mut layout_shift_bits: Vec<u64> = Vec::new();
    let mut network_requests: Vec<String> = Vec::new();
    let mut errors: Vec<String> = Vec::new();
    let mut console_messages: Vec<String> = Vec::new();
    let mut network_errors: Vec<String> = Vec::new();
    let mut i: usize = 0;
    while i < events.len()
        invariant
            i <= events@.len(),
            evs == events@.unref(),
            evs.len() == events@.len(),
            texts(dom_mutations@) == mutation_texts(evs.take(i as int)),
            layout_shift_bits@ == shift_bits(evs.take(i as int)),
            texts(network_requests@) == request_texts(evs.take(i as int)),
            texts(errors@) == error_texts(evs.take(i as int)),
            texts(console_messages@) == console_texts(evs.take(i as int)),
            texts(network_errors@) == network_error_texts(evs.take(i as int)),
        decreases events@.len() - i,
    {
        let e: &ObservationEvent = events[i];
        proof {
            assert(evs[i as int] == *e);
            assert(evs.take(i + 1).drop_last() =~= evs.take(i as int));
            assert(evs.take(i + 1).last() == *e);
        }
        match &e.kind {
            ObservationKind::DomMutation(t) => {
                let ghost before = dom_mutations@;
                dom_mutations.push(t.clone());
                proof {
                    assert(texts(dom_mutations@) =~= texts(before).push(t@));
                }
            },
            ObservationKind::LayoutShift { value_bits } => {
                layout_shift_bits.push(*value_bits);
            },
            ObservationKind::NetworkRequest { url, method, .. } => {
                let mut line = String::new();
                push_text(&mut line, method.as_str());
                push_text(&mut line, " ");
                push_text(&mut line, url.as_str());
                let ghost before = network_requests@;
                network_requests.push(line);
                proof {
                    assert(texts(network_requests@) =~= texts(before).push(method@ + " "@ + url@));
                }
            },
            ObservationKind::NetworkResponse { url, status, .. } => {
                if *status >= 400 {
                    let mut line = String::new();
                    push_text(&mut line, url.as_str());
                    push_text(&mut line, ": HTTP ");
                    push_signed(&mut line, *status as i64);
                    let ghost before = network_errors@;
                    network_errors.push(line);
                    proof {
                        assert(texts(network_errors@) =~= texts(before).push(url@ + ": HTTP "@ + signed_decimal(*status as int)));
                    }
                }
            },
            ObservationKind::NetworkError { url, error, .. } => {
                let mut line = String::new();
                push_text(&mut line, url.as_str());
                push_text(&mut line, ": ");
                push_text(&mut line, error.as_str());
                let ghost before = network_errors@;
                network_errors.push(line);
                proof {
                    assert(texts(network_errors@) =~= texts(before).push(url@ + ": "@ + error@));
                }
            },
            ObservationKind::Error { text, .. } => {
                let ghost before = errors@;
                errors.push(text.clone());
                proof {
                    assert(texts(errors@) =~= texts(before).push(text@));
                }
            },
            ObservationKind::ConsoleMessage { level, text, .. } => {
                let mut line = String::new();
                push_text(&mut line, "[");
                push_text(&mut line, level.as_str());
                push_text(&mut line, "] ");
                push_text(&mut line, text.as_str());
                let ghost before = console_messages@;
                console_messages.push(line);
                proof {
                    assert(texts(console_messages@) =~= texts(before).push("["@ + level@ + "] "@ + text@));
                }
            },
            _ => {},
        }
        i = i + 1;
    }
    proof {
        assert(evs.take(events@.len() as int) =~= evs);
    }
    ReportDraft {
        action,
        state,
        time_to_stable_ms,
        dom_mutations,
        layout_shift_bits,
        network_requests,
        errors,
        console_messages,
        total_events: events.len(),
        action_error,
        network_errors,
    }
}

impl PageState {
    pub open spec fn wf(&self) -> bool {
        &&& self.dom_tree.wf()
        &&& self.timeline.wf()
        &&& self.network.wf()
        &&& self.animations.wf()
        &&& self.child_targets.wf()
    }

    /// A fresh page: empty tree, timeline of 10 000 events kept for 60s, no
    /// action running.
    pub fn new(streaming: bool, now: u64) -> (s: Self)
        ensures
            s.wf(),
            s.page_epoch == 0,
            s.main_frame_id is None,
            s.dom_tree.nodes() == Map::<u64, crate::dom_tree::TreeNode>::empty(),
            s.timeline.events() == Seq::<ObservationEvent>::empty(),
            s.timeline.max_events() == 10_000,
            s.timeline.max_age_ns() == 60_000_000_000,
            s.timeline.marker() is None,
            s.timeline.pushed() == 0,
            s.network.requests() == Map::<Seq<char>, crate::network::TrackedRequest>::empty(),
            s.network.websockets() == Map::<Seq<char>, String>::empty(),
            s.animations@ == Map::<Seq<char>, u64>::empty(),
            s.child_targets@ == Map::<Seq<char>, TargetInfo>::empty(),
            s.mutation_burst_count == 0,
            s.last_burst_check == now,
            !s.needs_reconciliation,
            s.current_action is None,
            s.action_start is None,
            s.last_action_error is None,
            s.streaming == streaming,
            s.stream_start == now,
    {
        PageState {
            page_epoch: 0,
            main_frame_id: None,
            dom_tree: LiveDomTree::new(),
            timeline: Timeline::new(10_000, 60_000_000_000),
            stability: StabilityTracker::new_at(now),
            network: NetworkTracker::new(),
            animations: StrTable::new(),
            child_targets: StrTable::new(),
            mutation_burst_count: 0,
            last_burst_check: now,
            needs_reconciliation: false,
            current_action: None,
            action_start: None,
            last_action_error: None,
            streaming,
            stream_start: now,
        }
    }

    /// Store an observation in the timeline, and stream it when streaming.
    pub fn record_with_target(&mut self, kind: ObservationKind, target: Option<String>, now: u64) -> (r: Option<PageAction>)
        requires
            old(self).wf(),
            old(self).timeline.pushed() < u64::MAX,
        ensures
            final(self).wf(),
            *final(self) == (PageState { timeline: final(self).timeline, ..*old(self) }),
            appended(
                old(self).timeline,
                final(self).timeline,
                seq![ObservationEvent { timestamp: now, epoch: old(self).page_epoch, kind }],
            ),
            stream_of(*old(self), kind, target, now, r),
    {
        let action = if self.streaming {
            let time_ms = elapsed_nanos(now, self.stream_start) / 1_000_000;
            match &kind {
                ObservationKind::LayoutShift { value_bits } => Some(
                    PageAction::StreamLayoutShift { time_ms, value_bits: *value_bits, target },
                ),
                _ => {
                    let (c, d) = stream_text(&kind);
                    Some(PageAction::Stream(StreamEvent { time_ms, category: c, detail: d, target }))
                },
            }
        } else {
            None
        };
        let ghost t0 = self.timeline;
        let ghost e = ObservationEvent { timestamp: now, epoch: self.page_epoch, kind };
        self.timeline.push(ObservationEvent { timestamp: now, epoch: self.page_epoch, kind });
        proof {
            lemma_push_appended(t0, self.timeline, e);
        }
        action
    }

    /// Store an observation of the main target; returns its stream work.
    fn record(&mut self, kind: ObservationKind, now: u64) -> (acts: Vec<PageAction>)
        requires
            old(self).wf(),
            old(self).timeline.pushed() < u64::MAX,
        ensures
            final(self).wf(),
            *final(self) == (PageState { timeline: final(self).timeline, ..*old(self) }),
            noted(*old(self), *final(self), kind, None, now, acts@),
    {
        self.record_for(kind, None, now)
    }

    /// Store an observation from `target`; returns its stream work.
    fn record_for(&mut self, kind: ObservationKind, target: Option<String>, now: u64) -> (acts: Vec<PageAction>)
        requires
            old(self).wf(),
            old(self).timeline.pushed() < u64::MAX,
        ensures
            final(self).wf(),
            *final(self) == (PageState { timeline: final(self).timeline, ..*old(self) }),
            noted(*old(self), *final(self), kind, target, now, acts@),
    {
        let r = self.record_with_target(kind, target, now);
        let mut acts: Vec<PageAction> = Vec::new();
        match r {
            Some(a) => {
                acts.push(a);
            },
            None => {},
        }
        acts
    }

    /// Apply a sensor event of the main target; returns the outside work it
    /// asks for, in order.
    pub fn handle_sensor_event(&mut self, event: SensorEvent, now: u64) -> (acts: Vec<PageAction>)
        requires
            old(self).wf(),
            fits(*old(self), event),
        ensures
            final(self).wf(),
            sensor_step(*old(self), *final(self), event, now, acts@),
    {
        if is_dom_event_of(&event) {
            self.on_dom_event(event, now)
        } else if is_page_event_of(&event) {
            self.on_page_event(event, now)
        } else if is_network_event_of(&event) {
            self.on_network_event(event, now)
        } else {
            self.on_other_event(event, now)
        }
    }

    fn on_dom_event(&mut self, event: SensorEvent, now: u64) -> (acts: Vec<PageAction>)
        requires
            old(self).wf(),
            fits(*old(self), event),
            is_dom_event(event),
        ensures
            final(self).wf(),
            sensor_step(*old(self), *final(self), event, now, acts@),
    {
        let ghost b = *self;
        match event {
            SensorEvent::DocumentUpdated => {
                self.page_epoch = self.page_epoch + 1;
                self.dom_tree.clear();
                self.stability.on_dom_mutation(now);
                let desc = owned("documentUpdated (epoch bump)");
                let ghost g = desc;
                let mut acts = self.record(ObservationKind::DomMutation(desc), now);
                self.needs_reconciliation = true;
                let ghost before_push = acts@;
                acts.push(PageAction::FetchDocument);
                proof {
                    assert(acts@.drop_last() == before_push);
                    let mid = PageState { page_epoch: (b.page_epoch + 1) as u64, ..b };
                    assert(noted(mid, *self, ObservationKind::DomMutation(g), None, now, acts@.drop_last()));
                }
                acts
            },
            SensorEvent::SetChildNodes(d) => {
                self.dom_tree.set_children(d.parent_id, d.nodes);
                self.stability.on_dom_mutation(now);
                self.track_mutation_burst(now);
                Vec::new()
            },
            SensorEvent::ChildNodeInserted(d) => {
                let desc = inserted_desc(&d.node.node_name, d.parent_node_id);
                let ghost g = desc;
                self.dom_tree.insert_child(d.parent_node_id, d.previous_node_id, d.node);
                self.stability.on_dom_mutation(now);
                let ghost mid = *self;
                let acts = self.record(ObservationKind::DomMutation(desc), now);
                self.track_mutation_burst(now);
                proof {
                    assert(noted(b, *self, ObservationKind::DomMutation(g), None, now, acts@));
                }
                acts
            },
            SensorEvent::ChildNodeRemoved(d) => {
                let desc = removed_desc(d.node_id, d.parent_node_id);
                let ghost g = desc;
                self.dom_tree.remove_child(d.parent_node_id, d.node_id);
                self.stability.on_dom_mutation(now);
                let acts = self.record(ObservationKind::DomMutation(desc), now);
                self.track_mutation_burst(now);
                proof {
                    assert(noted(b, *self, ObservationKind::DomMutation(g), None, now, acts@));
                }
                acts
            },
            SensorEvent::AttributeModified(d) => {
                self.dom_tree.set_attribute(d.node_id, d.name.as_str(), d.value.as_str());
                self.stability.on_dom_mutation(now);
                let desc = attr_desc(&d.name, &d.value, d.node_id);
                let ghost g = desc;
                let acts = self.record(ObservationKind::DomMutation(desc), now);
                proof {
                    assert(noted(b, *self, ObservationKind::DomMutation(g), None, now, acts@));
                }
                acts
            },
            SensorEvent::AttributeRemoved(d) => {
                self.dom_tree.remove_attribute(d.node_id, d.name.as_str());
                self.stability.on_dom_mutation(now);
                Vec::new()
            },
            SensorEvent::CharacterDataModified(d) => {
                self.dom_tree.set_character_data(d.node_id, d.character_data.as_str());
                self.stability.on_dom_mutation(now);
                let desc = text_changed_desc(d.node_id);
                let ghost g = desc;
                let acts = self.record(ObservationKind::DomMutation(desc), now);
                proof {
                    assert(noted(b, *self, ObservationKind::DomMutation(g), None, now, acts@));
                }
                acts
            },
            SensorEvent::ChildNodeCountUpdated(d) => {
                self.dom_tree.update_child_count(d.node_id, d.child_node_count);
                Vec::new()
            },
            SensorEvent::InlineStyleInvalidated(d) => {
                self.stability.on_style_change(now);
                let mut acts: Vec<PageAction> = Vec::new();
                let ghost mut es: Seq<ObservationEvent> = Seq::empty();
                let ghost s0 = *self;
                proof {
                    lemma_appended_none(s0.timeline);
                }
                let mut i: usize = 0;
                while i < d.node_ids.len()
                    invariant
                        self.wf(),
                        s0.wf(),
                        b.timeline.pushed() + d.node_ids@.len() < u64::MAX,
                        s0.timeline == b.timeline,
                        s0.page_epoch == b.page_epoch,
                        s0.streaming == b.streaming,
                        s0.stream_start == b.stream_start,
                        *self == (PageState { timeline: self.timeline, ..s0 }),
                        i <= d.node_ids@.len(),
                        appended(s0.timeline, self.timeline, es),
                        es.len() == i,
                        forall|m: int|
                            0 <= m < i ==> {
                                &&& (#[trigger] es[m]).timestamp == now
                                &&& es[m].epoch == b.page_epoch
                                &&& (es[m].kind matches ObservationKind::DomMutation(t) && t@ == style_text(d.node_ids@[m]))
                            },
                        if b.streaming {
                            &&& acts@.len() == i
                            &&& forall|m: int| 0 <= m < i ==> stream_of(b, es[m].kind, None, now, Some(#[trigger] acts@[m]))
                        } else {
                            acts@.len() == 0
                        },
                    decreases d.node_ids@.len() - i,
                {
                    let desc = style_desc(d.node_ids[i]);
                    let ghost e = ObservationEvent { timestamp: now, epoch: b.page_epoch, kind: ObservationKind::DomMutation(desc) };
                    let ghost t_before = self.timeline;
                    let more = self.record(ObservationKind::DomMutation(desc), now);
                    proof {
                        lemma_appended_trans(s0.timeline, t_before, self.timeline, es, seq![e]);
                        assert(es + seq![e] =~= es.push(e));
                        es = es.push(e);
                        assert(es.last() == e);
                    }
                    let ghost acts_before = acts@;
                    let mut more = more;
                    acts.append(&mut more);
                    proof {
                        if b.streaming {
                            assert forall|m: int| 0 <= m < i + 1 implies stream_of(b, es[m].kind, None, now, Some(#[trigger] acts@[m])) by {
                                if m < i {
                                    assert(acts@[m] == acts_before[m]);
                                }
                            }
                        }
                    }
                    i = i + 1;
                }
                proof {
                    assert(appended(b.timeline, self.timeline, es));
                }
                acts
            },
            SensorEvent::ShadowRootPushed(d) => {
                self.dom_tree.add_shadow_root(d.host_id, d.root);
                self.stability.on_dom_mutation(now);
                Vec::new()
            },
            SensorEvent::ShadowRootPopped(d) => {
                self.dom_tree.remove_shadow_root(d.host_id, d.root.node_id);
                self.stability.on_dom_mutation(now);
                Vec::new()
            },
            SensorEvent::PseudoElementAdded(d) => {
                self.dom_tree.add_pseudo_element(d.parent_id, d.pseudo_element);
                self.stability.on_dom_mutation(now);
                Vec::new()
            },
            SensorEvent::PseudoElementRemoved(d) => {
                self.dom_tree.remove_pseudo_element(d.parent_id, d.pseudo_element.node_id);
                self.stability.on_dom_mutation(now);
                Vec::new()
            },
            _ => Vec::new(),
        }
    }

    fn on_page_event(&mut self, event: SensorEvent, now: u64) -> (acts: Vec<PageAction>)
        requires
            old(self).wf(),
            fits(*old(self), event),
            is_page_event(event),
        ensures
            final(self).wf(),
            sensor_step(*old(self), *final(self), event, now, acts@),
    {
        let ghost b = *self;
        match event {
            SensorEvent::LifecycleEvent { frame_id, name } => {
                self.stability.on_lifecycle(name.as_str(), now);
                self.record(ObservationKind::Lifecycle { name }, now)
            },
            SensorEvent::FrameNavigated(d) => {
                let is_main_frame = d.frame.parent_id.is_none();
                if is_main_frame {
                    self.page_epoch = self.page_epoch + 1;
                    self.main_frame_id = Some(d.frame.id);
                    self.stability.on_navigation(now);
                }
                self.record(ObservationKind::Navigation { url: d.frame.url }, now)
            },
            SensorEvent::FrameStartedLoading { .. } => Vec::new(),
            SensorEvent::FrameStoppedLoading { .. } => {
                self.stability.on_navigation_end(now);
                Vec::new()
            },
            SensorEvent::NavigatedWithinDocument { frame_id, url } => {
                self.stability.on_dom_mutation(now);
                self.record(ObservationKind::Navigation { url }, now)
            },
            SensorEvent::FrameResized => {
                self.stability.on_layout_shift(now);
                Vec::new()
            },
            SensorEvent::ScreencastFrame => self.record(ObservationKind::FrameCapture, now),
            _ => Vec::new(),
        }
    }

    fn on_network_event(&mut self, event: SensorEvent, now: u64) -> (acts: Vec<PageAction>)
        requires
            old(self).wf(),
            fits(*old(self), event),
            is_network_event(event),
        ensures
            final(self).wf(),
            sensor_step(*old(self), *final(self), event, now, acts@),
    {
        let ghost b = *self;
        match event {
            SensorEvent::RequestWillBeSent { request_id, request } => {
                self.network.on_request_sent(request_id.as_str(), request.url.as_str(), request.method.as_str());
                self.stability.on_network_activity(now);
                self.record(ObservationKind::NetworkRequest { url: request.url, method: request.method, target: None }, now)
            },
            SensorEvent::ResponseReceived { request_id, response } => {
                self.network.on_response(request_id.as_str(), response.status);
                self.record(
                    ObservationKind::NetworkResponse { url: response.url, status: response.status, target: None },
                    now,
                )
            },
            SensorEvent::LoadingFinished { request_id } => {
                self.network.on_complete(request_id.as_str());
                self.stability.on_network_complete(now);
                self.record(ObservationKind::NetworkComplete { request_id, target: None }, now)
            },
            SensorEvent::LoadingFailed { request_id, error_text } => {
                let error = error_text.clone();
                let url = match self.network.get_url(request_id.as_str()) {
                    Some(u) => u,
                    None => String::new(),
                };
                let ghost g = url;
                self.network.on_failed(request_id.as_str(), error.as_str());
                self.stability.on_network_complete(now);
                let acts = self.record(ObservationKind::NetworkError { url, error, target: None }, now);
                proof {
                    assert(noted(b, *self, ObservationKind::NetworkError { url: g, error: error_text, target: None }, None, now, acts@));
                }
                acts
            },
            SensorEvent::WebSocketCreated(d) => {
                self.network.on_websocket_opened(d.request_id.as_str(), d.url.as_str());
                self.stability.on_long_lived_connection(d.request_id.as_str());
                Vec::new()
            },
            SensorEvent::WebSocketClosed { request_id } => {
                self.network.on_websocket_closed(request_id.as_str());
                self.stability.on_long_lived_disconnection(request_id.as_str());
                Vec::new()
            },
            _ => Vec::new(),
        }
    }

    fn on_other_event(&mut self, event: SensorEvent, now: u64) -> (acts: Vec<PageAction>)
        requires
            old(self).wf(),
            fits(*old(self), event),
            !is_dom_event(event),
            !is_page_event(event),
            !is_network_event(event),
        ensures
            final(self).wf(),
            sensor_step(*old(self), *final(self), event, now, acts@),
    {
        let ghost b = *self;
        match event {
            SensorEvent::ConsoleApiCalled { call_type, args } => {
                let text = join_args(&args);
                let ghost g = text;
                let acts = self.record(ObservationKind::ConsoleMessage { level: call_type, text, target: None }, now);
                proof {
                    assert(noted(b, *self, ObservationKind::ConsoleMessage { level: call_type, text: g, target: None }, None, now, acts@));
                }
                acts
            },
            SensorEvent::ExceptionThrown { text } => {
                self.record(ObservationKind::Error { text: text.clone(), target: None }, now)
            },
            SensorEvent::LogEntryAdded { level, text } => {
                self.record(ObservationKind::ConsoleMessage { level, text, target: None }, now)
            },
            SensorEvent::AnimationStarted { id } => {
                self.animations.insert(id.as_str(), now);
                self.stability.on_animation_start(now);
                self.record(ObservationKind::AnimationStarted { id }, now)
            },
            SensorEvent::AnimationCanceled(d) => {
                self.animations.remove(d.id.as_str());
                self.stability.on_animation_end(now);
                self.record(ObservationKind::AnimationEnded { id: d.id }, now)
            },
            SensorEvent::PerformanceMetrics => Vec::new(),
            SensorEvent::LayoutShift { value_bits } => {
                self.stability.on_layout_shift(now);
                self.record(ObservationKind::LayoutShift { value_bits }, now)
            },
            SensorEvent::AttachedToTarget(d) => {
                let sid = d.session_id.clone();
                let is_frame = same_text(d.target_info.target_type.as_str(), "page") || same_text(
                    d.target_info.target_type.as_str(),
                    "iframe",
                );
                self.child_targets.insert(d.session_id.as_str(), d.target_info);
                let mut acts: Vec<PageAction> = Vec::new();
                if is_frame {
                    acts.push(PageAction::EnableChildDomains(sid));
                }
                acts
            },
            SensorEvent::DetachedFromTarget(d) => {
                self.child_targets.remove(d.session_id.as_str());
                Vec::new()
            },
            SensorEvent::AxNodesUpdated { node_count } => {
                self.record(ObservationKind::AxUpdate { node_count }, now)
            },
            _ => Vec::new(),
        }
    }

    /// Apply an event, tagged with the child session it came from, if any.
    /// Child-target events only reach the timeline (network, console and
    /// error events, with their provenance) and the list of child targets;
    /// their DOM and page events are skipped.
    pub fn handle_tagged_event(&mut self, event: SensorEvent, session_id: Option<String>, now: u64) -> (acts: Vec<PageAction>)
        requires
            old(self).wf(),
            match session_id {
                Some(_) => fits_child(*old(self), event),
                None => fits(*old(self), event),
            },
        ensures
            final(self).wf(),
            match session_id {
                Some(sid) => child_step(*old(self), *final(self), event, sid, now, acts@),
                None => sensor_step(*old(self), *final(self), event, now, acts@),
            },
    {
        match session_id {
            Some(sid) => self.on_child_event(event, sid, now),
            None => self.handle_sensor_event(event, now),
        }
    }

    fn on_child_event(&mut self, event: SensorEvent, sid: String, now: u64) -> (acts: Vec<PageAction>)
        requires
            old(self).wf(),
            fits_child(*old(self), event),
        ensures
            final(self).wf(),
            child_step(*old(self), *final(self), event, sid, now, acts@),
    {
        let ghost b = *self;
        match event {
            SensorEvent::RequestWillBeSent { request_id, request } => {
                self.stability.on_network_activity(now);
                self.record_for(
                    ObservationKind::NetworkRequest { url: request.url, method: request.method, target: Some(sid.clone()) },
                    Some(sid),
                    now,
                )
            },
            SensorEvent::ResponseReceived { request_id, response } => {
                self.record_for(
                    ObservationKind::NetworkResponse {
                        url: response.url,
                        status: response.status,
                        target: Some(sid.clone()),
                    },
                    Some(sid),
                    now,
                )
            },
            SensorEvent::LoadingFinished { request_id } => {
                self.stability.on_network_complete(now);
                self.record_for(ObservationKind::NetworkComplete { request_id, target: Some(sid.clone()) }, Some(sid), now)
            },
            SensorEvent::LoadingFailed { request_id, error_text } => {
                self.stability.on_network_complete(now);
                let url = String::new();
                let ghost g = url;
                let acts = self.record_for(
                    ObservationKind::NetworkError { url, error: error_text, target: Some(sid.clone()) },
                    Some(sid),
                    now,
                );
                proof {
                    assert(noted(b, *self, ObservationKind::NetworkError { url: g, error: error_text, target: Some(sid) }, Some(sid), now, acts@));
                }
                acts
            },
            SensorEvent::ConsoleApiCalled { call_type, args } => {
                let text = join_args(&args);
                let ghost g = text;
                let acts = self.record_for(
                    ObservationKind::ConsoleMessage { level: call_type, text, target: Some(sid.clone()) },
                    Some(sid),
                    now,
                );
                proof {
                    assert(noted(b, *self, ObservationKind::ConsoleMessage { level: call_type, text: g, target: Some(sid) }, Some(sid), now, acts@));
                }
                acts
            },
            SensorEvent::ExceptionThrown { text } => {
                self.record_for(ObservationKind::Error { text, target: Some(sid.clone()) }, Some(sid), now)
            },
            SensorEvent::LogEntryAdded { level, text } => {
                self.record_for(ObservationKind::ConsoleMessage { level, text, target: Some(sid.clone()) }, Some(sid), now)
            },
            SensorEvent::AttachedToTarget(d) => {
                self.child_targets.insert(d.session_id.as_str(), d.target_info);
                Vec::new()
            },
            SensorEvent::DetachedFromTarget(d) => {
                self.child_targets.remove(d.session_id.as_str());
                Vec::new()
            },
            _ => Vec::new(),
        }
    }

    /// Whether an event of the page itself stays within the machine limits
    /// (`fits`): the counters it bumps do not overflow and the tree has room
    /// for the nodes it delivers.
    pub fn fits_event(&self, e: &SensorEvent) -> (r: bool)
        requires
            self.wf(),
        ensures
            r == fits(*self, *e),
    {
        let room = self.timeline.total_count() < u64::MAX;
        let burst = self.mutation_burst_count < u32::MAX;
        match e {
            SensorEvent::DocumentUpdated => room && self.page_epoch < u64::MAX,
            SensorEvent::SetChildNodes(d) => self.dom_tree.has_room(delivered_list_count(&d.nodes)) && burst,
            SensorEvent::ChildNodeInserted(d) => self.dom_tree.has_room(delivered_count(&d.node)) && room && burst,
            SensorEvent::ChildNodeRemoved(_) => room && burst,
            SensorEvent::AttributeModified(_) => room,
            SensorEvent::CharacterDataModified(_) => room,
            SensorEvent::InlineStyleInvalidated(d) => (d.node_ids.len() as u64) < u64::MAX - self.timeline.total_count(),
            SensorEvent::ShadowRootPushed(d) => self.dom_tree.has_room(delivered_count(&d.root)),
            SensorEvent::PseudoElementAdded(d) => self.dom_tree.has_room(delivered_count(&d.pseudo_element)),
            SensorEvent::FrameNavigated(d) => room && (d.frame.parent_id.is_some() || (self.page_epoch < u64::MAX
                && self.stability.active_navigations < u32::MAX)),
            SensorEvent::AttributeRemoved(_) => true,
            SensorEvent::ChildNodeCountUpdated(_) => true,
            SensorEvent::ShadowRootPopped(_) => true,
            SensorEvent::PseudoElementRemoved(_) => true,
            SensorEvent::FrameStartedLoading { .. } => true,
            SensorEvent::FrameStoppedLoading { .. } => true,
            SensorEvent::FrameResized => true,
            SensorEvent::WebSocketCreated(_) => true,
            SensorEvent::WebSocketClosed { .. } => true,
            SensorEvent::PerformanceMetrics => true,
            SensorEvent::AttachedToTarget(_) => true,
            SensorEvent::DetachedFromTarget(_) => true,
            _ => room,
        }
    }

    /// Whether an event of a child target stays within the machine limits
    /// (`fits_child`).
    pub fn fits_child_event(&self, e: &SensorEvent) -> (r: bool)
        ensures
            r == fits_child(*self, *e),
    {
        let room = self.timeline.total_count() < u64::MAX;
        match e {
            SensorEvent::RequestWillBeSent { .. } => room,
            SensorEvent::ResponseReceived { .. } => room,
            SensorEvent::LoadingFinished { .. } => room,
            SensorEvent::LoadingFailed { .. } => room,
            SensorEvent::ConsoleApiCalled { .. } => room,
            SensorEvent::ExceptionThrown { .. } => room,
            SensorEvent::LogEntryAdded { .. } => room,
            _ => true,
        }
    }

    /// A new action starts: remember it, mark the timeline and restart the
    /// stability wait.
    pub fn start_action(&mut self, description: String, now: u64)
        requires
            old(self).wf(),
        ensures
            final(self).wf(),
            *final(self) == (PageState {
                current_action: Some(description),
                action_start: Some(now),
                last_action_error: None,
                timeline: final(self).timeline,
                stability: StabilityTracker {
                    wait_start: Some(now),
                    current_quiet_streak: 0,
                    last_quiet_check: now,
                    ..old(self).stability
                },
                ..*old(self)
            }),
            final(self).timeline.events() == old(self).timeline.events(),
            final(self).timeline.marker() == Some(old(self).timeline.events().len() as usize),
            final(self).timeline.max_events() == old(self).timeline.max_events(),
            final(self).timeline.max_age_ns() == old(self).timeline.max_age_ns(),
            final(self).timeline.pushed() == old(self).timeline.pushed(),
    {
        self.current_action = Some(description);
        self.action_start = Some(now);
        self.last_action_error = None;
        self.timeline.mark_action_start();
        self.stability.begin_action(now);
    }

    /// The current action failed with `message`.
    pub fn action_failed(&mut self, message: String)
        ensures
            *final(self) == (PageState { last_action_error: Some(message), ..*old(self) }),
    {
        self.last_action_error = Some(message);
    }

    /// Streaming starts now.
    pub fn enable_streaming(&mut self, now: u64)
        ensures
            *final(self) == (PageState { streaming: true, stream_start: now, ..*old(self) }),
    {
        self.streaming = true;
        self.stream_start = now;
    }

    /// Whether a reconciliation is due; the request is consumed.
    pub fn take_reconciliation(&mut self) -> (r: bool)
        ensures
            r == old(self).needs_reconciliation,
            *final(self) == (PageState { needs_reconciliation: false, ..*old(self) }),
    {
        let r = self.needs_reconciliation;
        self.needs_reconciliation = false;
        r
    }

    /// The document fetched for `PageAction::FetchDocument` (or by a
    /// reconciliation) replaces the tree.
    pub fn apply_document(&mut self, root: crate::dom_node::DomNode)
        requires
            old(self).wf(),
            tree_room(old(self).dom_tree, preorder(root).len()),
        ensures
            final(self).wf(),
            *final(self) == (PageState { dom_tree: final(self).dom_tree, ..*old(self) }),
            crate::dom_tree::rooted(old(self).dom_tree, final(self).dom_tree, root),
    {
        self.dom_tree.set_root(root);
    }

    /// Whether the stability check at `now` would extend a quiet streak that
    /// is already at `u32::MAX`.
    pub fn streak_full_at(&self, now: u64) -> (r: bool)
        requires
            self.wf(),
        ensures
            r == (streak_grows(
                self.stability,
                now,
                self.network.pending_ids().len() as usize,
                self.animations.entries().len() as u32,
            ) && self.stability.current_quiet_streak == u32::MAX),
    {
        let pending = self.network.pending_count();
        let anims = self.animations.len() as u32;
        self.stability.current_quiet_streak == u32::MAX && self.stability.streak_would_grow(now, pending, anims)
    }

    /// The periodic stability check. Once the page has fully settled or the
    /// wait timed out while an action runs, the action ends and its report
    /// is drafted from the events observed since it started.
    pub fn check_stability(&mut self, now: u64) -> (r: Option<ReportDraft>)
        requires
            old(self).wf(),
            streak_grows(
                old(self).stability,
                now,
                old(self).network.pending_ids().len() as usize,
                old(self).animations.entries().len() as u32,
            ) ==> old(self).stability.current_quiet_streak < u32::MAX,
        ensures
            final(self).wf(),
            stability_checked(*old(self), *final(self), now, r),
    {
        let pending = self.network.pending_count();
        let anims = self.animations.len() as u32;
        let state = self.stability.check_at(now, pending, anims);
        let settled = match state {
            StabilityState::FullySettled => true,
            StabilityState::TimedOut => true,
            _ => false,
        };
        if settled {
            match self.current_action.take() {
                Some(action) => {
                    let elapsed_ms = match self.action_start.take() {
                        Some(start) => elapsed_nanos(now, start) / 1_000_000,
                        None => 0,
                    };
                    let draft = {
                        let events = self.timeline.events_since_last_action();
                        draft_report(&events, action, state, elapsed_ms, self.last_action_error.take())
                    };
                    Some(draft)
                },
                None => None,
            }
        } else {
            None
        }
    }

    /// Count a DOM mutation towards the current burst.
    pub fn track_mutation_burst(&mut self, now: u64)
        requires
            old(self).mutation_burst_count < u32::MAX,
        ensures
            *final(self) == (PageState {
                mutation_burst_count: final(self).mutation_burst_count,
                last_burst_check: final(self).last_burst_check,
                needs_reconciliation: final(self).needs_reconciliation,
                ..*old(self)
            }),
            burst_step(*old(self), *final(self), now),
    {
        self.mutation_burst_count = self.mutation_burst_count + 1;
        if elapsed_nanos(now, self.last_burst_check) > 500_000_000 {
            if self.mutation_burst_count > 100 {
                self.needs_reconciliation = true;
            }
            self.mutation_burst_count = 0;
            self.last_burst_check = now;
        }
    }
}

} // verus!
