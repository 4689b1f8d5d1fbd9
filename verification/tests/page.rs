use std::collections::HashMap;

use sentinel::cdp_types::{AttachedToTarget, ChildNodeInserted, RequestData, TargetInfo};
use sentinel::clock::clock_now;
use sentinel::dom_node::DomNode;
use sentinel::page::{join_args, PageAction, PageState, SensorEvent};
use sentinel::stability::StabilityState;

const MS: u64 = 1_000_000;

fn node(node_id: i64, name: &str, node_type: i32) -> DomNode {
    DomNode {
        node_id,
        parent_id: None,
        backend_node_id: node_id + 500,
        node_type,
        node_name: name.to_string(),
        local_name: None,
        node_value: String::new(),
        child_node_count: None,
        children: None,
        attributes: None,
        document_url: None,
        base_url: None,
        frame_id: None,
        content_document: None,
        shadow_roots: None,
        pseudo_type: None,
        pseudo_identifier: None,
        distributed_nodes: None,
    }
}

fn request(id: &str, url: &str) -> SensorEvent {
    SensorEvent::RequestWillBeSent {
        request_id: id.to_string(),
        request: RequestData { url: url.to_string(), method: "GET".to_string(), headers: HashMap::new() },
    }
}

fn target(kind: &str) -> TargetInfo {
    TargetInfo {
        target_id: "t1".to_string(),
        target_type: kind.to_string(),
        title: String::new(),
        url: "https://child.test/".to_string(),
        attached: Some(true),
    }
}

#[test]
fn request_is_tracked_and_streamed() {
    let t0 = clock_now();
    let mut page = PageState::new(true, t0);
    let acts = page.handle_sensor_event(request("r1", "https://a.test/x"), t0 + 5 * MS);
    assert_eq!(acts.len(), 1);
    match &acts[0] {
        PageAction::Stream(e) => {
            assert_eq!(e.time_ms, 5);
            assert_eq!(e.category, "network");
            assert_eq!(e.detail, "GET https://a.test/x");
            assert!(e.target.is_none());
        }
        _ => panic!("expected a stream event"),
    }
    assert_eq!(page.network.pending_count(), 1);
    assert_eq!(page.timeline.len(), 1);
}

#[test]
fn nothing_is_streamed_when_not_streaming() {
    let t0 = clock_now();
    let mut page = PageState::new(false, t0);
    let acts = page.handle_sensor_event(request("r1", "https://a.test/x"), t0 + MS);
    assert!(acts.is_empty());
    assert_eq!(page.timeline.len(), 1);
}

#[test]
fn document_update_clears_tree_and_fetches_document() {
    let t0 = clock_now();
    let mut page = PageState::new(false, t0);
    let mut root = node(1, "#document", 9);
    root.children = Some(vec![node(2, "HTML", 1)]);
    page.apply_document(root);
    assert_eq!(page.dom_tree.node_count(), 2);

    let acts = page.handle_sensor_event(SensorEvent::DocumentUpdated, t0 + MS);
    assert!(matches!(acts.last(), Some(PageAction::FetchDocument)));
    assert_eq!(page.dom_tree.node_count(), 0);
    assert_eq!(page.page_epoch, 1);
    assert!(page.needs_reconciliation);
}

#[test]
fn inserted_node_joins_tree() {
    let t0 = clock_now();
    let mut page = PageState::new(false, t0);
    page.apply_document(node(1, "#document", 9));
    let ev = SensorEvent::ChildNodeInserted(ChildNodeInserted {
        parent_node_id: 1,
        previous_node_id: 0,
        node: node(7, "DIV", 1),
    });
    page.handle_sensor_event(ev, t0 + MS);
    assert_eq!(page.dom_tree.node_count(), 2);
    assert!(page.dom_tree.get_by_node_id(7).is_some());
}

#[test]
fn child_page_target_gets_its_domains_enabled() {
    let t0 = clock_now();
    let mut page = PageState::new(false, t0);
    let ev = SensorEvent::AttachedToTarget(AttachedToTarget {
        session_id: "S1".to_string(),
        target_info: target("iframe"),
        waiting_for_debugger: false,
    });
    let acts = page.handle_sensor_event(ev, t0 + MS);
    assert_eq!(acts.len(), 1);
    assert!(matches!(&acts[0], PageAction::EnableChildDomains(s) if s == "S1"));
    assert_eq!(page.child_targets.len(), 1);
}

#[test]
fn worker_target_needs_no_domains() {
    let t0 = clock_now();
    let mut page = PageState::new(false, t0);
    let ev = SensorEvent::AttachedToTarget(AttachedToTarget {
        session_id: "S2".to_string(),
        target_info: target("worker"),
        waiting_for_debugger: false,
    });
    let acts = page.handle_sensor_event(ev, t0 + MS);
    assert!(acts.is_empty());
    assert_eq!(page.child_targets.len(), 1);
}

#[test]
fn child_dom_events_leave_main_tree_alone() {
    let t0 = clock_now();
    let mut page = PageState::new(false, t0);
    page.apply_document(node(1, "#document", 9));
    let ev = SensorEvent::ChildNodeInserted(ChildNodeInserted {
        parent_node_id: 1,
        previous_node_id: 0,
        node: node(7, "DIV", 1),
    });
    let acts = page.handle_tagged_event(ev, Some("S1".to_string()), t0 + MS);
    assert!(acts.is_empty());
    assert_eq!(page.dom_tree.node_count(), 1);
}

#[test]
fn child_network_events_carry_their_target() {
    let t0 = clock_now();
    let mut page = PageState::new(true, t0);
    let acts = page.handle_tagged_event(request("r9", "https://c.test/"), Some("S1".to_string()), t0 + 3 * MS);
    assert_eq!(acts.len(), 1);
    match &acts[0] {
        PageAction::Stream(e) => assert_eq!(e.target.as_deref(), Some("S1")),
        _ => panic!("expected a stream event"),
    }
}

#[test]
fn layout_shift_is_streamed_with_its_score() {
    let t0 = clock_now();
    let mut page = PageState::new(true, t0);
    let bits = 0.25f64.to_bits();
    let acts = page.handle_sensor_event(SensorEvent::LayoutShift { value_bits: bits }, t0 + 2 * MS);
    assert_eq!(acts.len(), 1);
    match &acts[0] {
        PageAction::StreamLayoutShift { time_ms, value_bits, target } => {
            assert_eq!(*time_ms, 2);
            assert_eq!(*value_bits, bits);
            assert!(target.is_none());
        }
        _ => panic!("expected a layout shift"),
    }
}

#[test]
fn no_report_without_action() {
    let t0 = clock_now();
    let mut page = PageState::new(false, t0);
    assert!(page.check_stability(t0 + 20_000 * MS).is_none());
}

#[test]
fn timed_out_action_is_reported_once() {
    let t0 = clock_now();
    let mut page = PageState::new(false, t0);
    page.start_action("Click".to_string(), t0);
    page.handle_sensor_event(request("r1", "https://a.test/slow"), t0 + MS);
    page.action_failed("Click failed: Element not found: #x".to_string());
    let draft = page.check_stability(t0 + 11_000 * MS).expect("a report");
    assert_eq!(draft.action, "Click");
    assert_eq!(draft.state, StabilityState::TimedOut);
    assert_eq!(draft.time_to_stable_ms, 11_000);
    assert_eq!(draft.network_requests, vec!["GET https://a.test/slow".to_string()]);
    assert_eq!(draft.total_events, 1);
    assert_eq!(draft.action_error.as_deref(), Some("Click failed: Element not found: #x"));
    assert!(page.check_stability(t0 + 12_000 * MS).is_none());
}

#[test]
fn quiet_page_settles_fully() {
    let t0 = clock_now();
    let mut page = PageState::new(false, t0);
    page.start_action("Snapshot".to_string(), t0);
    let mut report = None;
    let mut t = t0;
    for _ in 0..40 {
        t += 100 * MS;
        if let Some(r) = page.check_stability(t) {
            report = Some(r);
            break;
        }
    }
    let r = report.expect("the page settles");
    assert_eq!(r.state, StabilityState::FullySettled);
    assert!(r.time_to_stable_ms >= 1000);
}

#[test]
fn mutation_burst_asks_for_reconciliation() {
    let t0 = clock_now();
    let mut page = PageState::new(false, t0);
    for _ in 0..101 {
        page.track_mutation_burst(t0 + MS);
    }
    assert!(!page.needs_reconciliation);
    page.track_mutation_burst(t0 + 600 * MS);
    assert!(page.needs_reconciliation);
    assert_eq!(page.mutation_burst_count, 0);
    assert!(page.take_reconciliation());
    assert!(!page.take_reconciliation());
}

#[test]
fn slow_mutations_do_not_ask_for_reconciliation() {
    let t0 = clock_now();
    let mut page = PageState::new(false, t0);
    for _ in 0..50 {
        page.track_mutation_burst(t0 + MS);
    }
    page.track_mutation_burst(t0 + 600 * MS);
    assert!(!page.needs_reconciliation);
}

#[test]
fn console_arguments_are_joined() {
    let args = vec!["a".to_string(), "b c".to_string(), "d".to_string()];
    assert_eq!(join_args(&args), "a b c d");
    assert_eq!(join_args(&Vec::new()), "");
}
