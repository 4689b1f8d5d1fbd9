use std::io::Cursor;

use sentinel::actuator::{document_root, matched_node};
use sentinel::budget::{budget_metric, split_budget, BudgetMetric, BudgetOp};
use sentinel::calls::{Delivery, PendingCalls};
use sentinel::cdp_types::CdpError;
use sentinel::clock::{advance, chrono_now, clock_now, elapsed_nanos, epoch_seconds_text, millis_to_nanos, nanos_from_reading, Clock};
use sentinel::compare::{count_regressions, diff_status, DiffStatus, Movement};
use sentinel::daemon::{decide_command, DaemonCommand, DaemonStep};
use sentinel::network::NetworkTracker;
use sentinel::page::{ActuatorCommand, StreamEvent};
use sentinel::recording::EventCounts;
use sentinel::screenshot::{decode_screenshot, ScreenshotError};
use sentinel::sensor::{is_layout_shift_entry, sensor_method, SensorMethod};
use sentinel::snapshot::{lookup_string, snapshot_checked, tree_from_snapshot, SnapshotNodes};
use sentinel::text::decimal_text;

fn command(action: &str) -> DaemonCommand {
    DaemonCommand { action: action.to_string(), url: None, selector: None, text: None, duration: None, filter: None }
}

fn stream(category: &str, detail: &str, time_ms: u64) -> StreamEvent {
    StreamEvent { time_ms, category: category.to_string(), detail: detail.to_string(), target: None }
}

fn movement(rose: bool, fell: bool, from_zero: bool, over: bool, under: bool) -> Movement {
    Movement { rose, fell, from_zero, over_threshold: over, under_threshold: under }
}

// ── network ──

#[test]
fn network_tracks_pending_requests() {
    let mut net = NetworkTracker::new();
    net.on_request_sent("1", "https://a.test/", "GET");
    net.on_request_sent("2", "https://a.test/b", "POST");
    assert_eq!(net.pending_count(), 2);
    net.on_response("1", 200);
    assert_eq!(net.pending_count(), 2);
    net.on_complete("1");
    assert_eq!(net.pending_count(), 1);
    assert!(net.get_url("1").is_none());
    assert_eq!(net.get_url("2").as_deref(), Some("https://a.test/b"));
    net.on_failed("2", "net::ERR_ABORTED");
    assert_eq!(net.pending_count(), 0);
    assert!(net.get_url("2").is_none());
}

#[test]
fn websockets_are_not_pending() {
    let mut net = NetworkTracker::new();
    net.on_websocket_opened("ws", "wss://a.test/live");
    assert_eq!(net.pending_count(), 0);
    net.on_websocket_closed("ws");
    assert_eq!(net.pending_count(), 0);
}

// ── daemon ──

#[test]
fn ping_is_answered_with_pong() {
    match decide_command(command("ping")) {
        Ok(DaemonStep::Reply(m)) => assert_eq!(m, "pong"),
        _ => panic!("expected a reply"),
    }
}

#[test]
fn navigate_needs_a_url() {
    assert_eq!(decide_command(command("navigate")).err().as_deref(), Some("Missing 'url'"));
    let mut c = command("navigate");
    c.url = Some("https://a.test/".to_string());
    match decide_command(c) {
        Ok(DaemonStep::Forward(ActuatorCommand::Navigate { url })) => assert_eq!(url, "https://a.test/"),
        _ => panic!("expected a navigation"),
    }
}

#[test]
fn type_needs_selector_then_text() {
    assert_eq!(decide_command(command("type")).err().as_deref(), Some("Missing 'selector'"));
    let mut c = command("type");
    c.selector = Some("#q".to_string());
    assert_eq!(decide_command(c).err().as_deref(), Some("Missing 'text'"));
}

#[test]
fn unknown_action_is_refused() {
    match decide_command(command("dance")) {
        Ok(DaemonStep::Refuse(m)) => assert_eq!(m, "Unknown action: dance"),
        _ => panic!("expected a refusal"),
    }
}

#[test]
fn shutdown_and_snapshot_answers() {
    assert!(matches!(decide_command(command("shutdown")), Ok(DaemonStep::Shutdown(m)) if m == "Shutting down"));
    assert!(matches!(
        decide_command(command("snapshot")),
        Ok(DaemonStep::ForwardAndReply(ActuatorCommand::Snapshot, m)) if m == "Snapshot printed to daemon stdout"
    ));
}

// ── recording counts ──

#[test]
fn recording_counts_categories() {
    let mut c = EventCounts::new();
    assert!(c.add_event(&stream("dom", "inserted <DIV> into node 1", 5)).is_none());
    assert!(c.add_event(&stream("network", "GET https://a.test/", 6)).is_none());
    assert_eq!(c.add_event(&stream("layout", "CLS 0.1250", 7)), Some("0.1250"));
    assert!(c.add_event(&stream("layout", "shift", 8)).is_none());
    assert!(c.add_event(&stream("lifecycle", "InteractiveTime", 900)).is_none());
    assert!(c.add_event(&stream("other", "x", 950)).is_none());
    assert_eq!(c.total_events, 6);
    assert_eq!(c.dom_mutations, 1);
    assert_eq!(c.network_requests, 1);
    assert_eq!(c.layout_shifts, 2);
    assert_eq!(c.lifecycle_events, 1);
    assert_eq!(c.time_to_interactive_ms, Some(900));
    assert_eq!(c.duration_ms, 950);
}

// ── text and clock ──

#[test]
fn decimal_text_writes_digits() {
    assert_eq!(decimal_text(0), "0");
    assert_eq!(decimal_text(1234567), "1234567");
    assert_eq!(decimal_text(u64::MAX), "18446744073709551615");
}

#[test]
fn clock_arithmetic() {
    assert_eq!(elapsed_nanos(10, 3), 7);
    assert_eq!(elapsed_nanos(3, 10), 0);
    assert_eq!(millis_to_nanos(1500), 1_500_000_000);
    assert_eq!(epoch_seconds_text(12_345_000_000_000), "12345s since epoch");
    assert!(chrono_now().ends_with("s since epoch"));
}

// ── snapshot ──

#[test]
fn lookup_string_out_of_range_is_empty() {
    let strings = vec!["#document".to_string(), "HTML".to_string()];
    assert_eq!(lookup_string(&strings, 1), "HTML");
    assert_eq!(lookup_string(&strings, 7), "");
}

#[test]
fn snapshot_rebuilds_tree() {
    let strings = vec!["#document".to_string(), "HTML".to_string(), "BODY".to_string(), "hi".to_string()];
    let nodes = SnapshotNodes {
        parent_index: vec![-1, 0, 1],
        node_type: vec![9, 1, 1],
        node_name: vec![0, 1, 2],
        node_value: vec![-1, -1, 3],
        backend_node_id: vec![10, 11, 12],
    };
    assert!(snapshot_checked(&nodes));
    let root = tree_from_snapshot(&nodes, &strings).expect("a tree");
    assert_eq!(root.node_id, 1);
    assert_eq!(root.node_name, "#document");
    let html = &root.children.as_ref().unwrap()[0];
    assert_eq!(html.node_id, 2);
    assert_eq!(html.parent_id, Some(1));
    let body = &html.children.as_ref().unwrap()[0];
    assert_eq!(body.node_name, "BODY");
    assert_eq!(body.node_value, "hi");
    assert_eq!(body.backend_node_id, 12);
}

#[test]
fn empty_snapshot_has_no_tree() {
    let nodes = SnapshotNodes {
        parent_index: vec![],
        node_type: vec![],
        node_name: vec![],
        node_value: vec![],
        backend_node_id: vec![],
    };
    assert!(snapshot_checked(&nodes));
    assert!(tree_from_snapshot(&nodes, &[]).is_none());
}

#[test]
fn snapshot_with_cycle_through_root_is_refused() {
    let nodes = SnapshotNodes {
        parent_index: vec![1, 0],
        node_type: vec![9, 1],
        node_name: vec![-1, -1],
        node_value: vec![-1, -1],
        backend_node_id: vec![1, 2],
    };
    assert!(!snapshot_checked(&nodes));
}

#[test]
fn snapshot_cycle_away_from_root_is_ignored() {
    let strings = vec!["#document".to_string()];
    let nodes = SnapshotNodes {
        parent_index: vec![-1, 2, 1, 0],
        node_type: vec![9, 1, 1, 1],
        node_name: vec![0, -1, -1, -1],
        node_value: vec![-1, -1, -1, -1],
        backend_node_id: vec![1, 2, 3, 4],
    };
    assert!(snapshot_checked(&nodes));
    let root = tree_from_snapshot(&nodes, &strings).expect("a tree");
    let kids = root.children.as_ref().unwrap();
    assert_eq!(kids.len(), 1);
    assert_eq!(kids[0].node_id, 4);
}

#[test]
fn snapshot_with_short_arrays_is_refused() {
    let nodes = SnapshotNodes {
        parent_index: vec![-1, 0],
        node_type: vec![9, 1],
        node_name: vec![0],
        node_value: vec![-1, -1],
        backend_node_id: vec![1, 2],
    };
    assert!(!snapshot_checked(&nodes));
}

// ── pending calls ──

#[test]
fn responses_reach_their_callers() {
    let mut calls: PendingCalls<&str> = PendingCalls::new();
    let a = calls.register("first").unwrap();
    let b = calls.register("second").unwrap();
    assert_eq!((a, b), (1, 2));
    assert!(matches!(calls.deliver(false, Some(2)), Delivery::Reply("second")));
    assert!(matches!(calls.deliver(false, Some(2)), Delivery::Unclaimed));
    assert!(matches!(calls.deliver(true, Some(1)), Delivery::Event));
    assert_eq!(calls.waiting_count(), 1);
    assert_eq!(calls.forget(1), Some("first"));
    assert_eq!(calls.waiting_count(), 0);
}

#[test]
fn closing_drops_waiting_calls() {
    let mut calls: PendingCalls<u8> = PendingCalls::new();
    calls.register(1);
    calls.register(2);
    assert_eq!(calls.close(), 2);
    assert!(calls.is_closed());
    assert_eq!(calls.register(3), None);
    assert!(matches!(calls.deliver(false, Some(1)), Delivery::Unclaimed));
}

#[test]
fn cdp_error_text() {
    let e = CdpError { code: -32000, message: "No node".to_string() };
    assert_eq!(e.describe(), "CDP error -32000: No node");
}

// ── budget ──

#[test]
fn budget_splits_into_rules() {
    let rules = split_budget("CLS<0.1,TTI<3000,errors=0");
    assert_eq!(rules.len(), 3);
    assert_eq!(rules[0].metric, "cls");
    assert_eq!(rules[0].op, BudgetOp::LessThan);
    assert_eq!(rules[0].value, "0.1");
    assert_eq!(rules[1].metric, "tti");
    assert_eq!(rules[1].value, "3000");
    assert_eq!(rules[2].metric, "errors");
    assert_eq!(rules[2].op, BudgetOp::Equal);
    assert_eq!(rules[2].value, "0");
}

#[test]
fn budget_trims_and_skips() {
    let rules = split_budget(" CLS < 0.1 , , requests<=50, junk, Shifts>2 ");
    assert_eq!(rules.len(), 3);
    assert_eq!(rules[0].metric, "cls");
    assert_eq!(rules[0].value, "0.1");
    assert_eq!(rules[1].metric, "requests");
    assert_eq!(rules[1].op, BudgetOp::LessOrEqual);
    assert_eq!(rules[1].value, "50");
    assert_eq!(rules[2].metric, "shifts");
    assert_eq!(rules[2].op, BudgetOp::GreaterThan);
    assert_eq!(rules[2].value, "2");
    assert!(split_budget("").is_empty());
}

#[test]
fn budget_prefers_less_or_equal() {
    let rules = split_budget("a<b<=c");
    assert_eq!(rules[0].metric, "a<b");
    assert_eq!(rules[0].op, BudgetOp::LessOrEqual);
    assert_eq!(rules[0].value, "c");
}

#[test]
fn budget_operator_text_and_metrics() {
    assert_eq!(BudgetOp::LessOrEqual.symbol(), "<=");
    assert_eq!(BudgetOp::GreaterThan.symbol(), ">");
    assert_eq!(budget_metric("cls"), BudgetMetric::Cls);
    assert_eq!(budget_metric("interactive"), BudgetMetric::TimeToInteractive);
    assert_eq!(budget_metric("dom_mutations"), BudgetMetric::DomMutations);
    assert_eq!(budget_metric("total"), BudgetMetric::TotalEvents);
    assert_eq!(budget_metric("fps"), BudgetMetric::Unknown);
}

// ── comparison ──

#[test]
fn strict_metrics_fail_on_any_rise() {
    assert_eq!(diff_status(true, movement(true, false, true, false, false)), DiffStatus::New);
    assert_eq!(diff_status(true, movement(true, false, false, false, false)), DiffStatus::Regression);
    assert_eq!(diff_status(true, movement(false, true, false, false, true)), DiffStatus::Improved);
    assert_eq!(diff_status(true, movement(false, false, false, false, false)), DiffStatus::Acceptable);
}

#[test]
fn other_metrics_fail_past_threshold() {
    assert_eq!(diff_status(false, movement(true, false, false, false, false)), DiffStatus::Acceptable);
    assert_eq!(diff_status(false, movement(true, false, false, true, false)), DiffStatus::Regression);
    assert_eq!(diff_status(false, movement(false, true, false, false, true)), DiffStatus::Improved);
    let all = [DiffStatus::New, DiffStatus::Acceptable, DiffStatus::Regression, DiffStatus::Improved];
    assert_eq!(count_regressions(&all), 2);
}

// ── sensor and actuator ──

#[test]
fn observed_methods() {
    assert_eq!(sensor_method("DOM.documentUpdated"), Some(SensorMethod::DocumentUpdated));
    assert_eq!(sensor_method("Runtime.consoleAPICalled"), Some(SensorMethod::ConsoleApiCalled));
    assert_eq!(sensor_method("Accessibility.nodesUpdated"), Some(SensorMethod::AxNodesUpdated));
    assert_eq!(sensor_method("Network.dataReceived"), None);
    assert!(is_layout_shift_entry("layout-shift"));
    assert!(!is_layout_shift_entry("largest-contentful-paint"));
}

#[test]
fn selector_matches() {
    assert_eq!(matched_node(Some(42), "#go"), Ok(42));
    assert_eq!(matched_node(Some(0), "#go"), Err("Element not found: #go".to_string()));
    assert_eq!(matched_node(None, "#go"), Err("Element not found: #go".to_string()));
    assert_eq!(document_root(Some(1)), Ok(1));
    assert_eq!(document_root(None), Err("No root nodeId".to_string()));
}

// ── screenshots ──

#[test]
fn screenshot_decodes_png() {
    let img = image::DynamicImage::new_rgba8(3, 2);
    let mut bytes = Cursor::new(Vec::new());
    img.write_to(&mut bytes, image::ImageFormat::Png).unwrap();
    let text = base64::Engine::encode(&base64::engine::general_purpose::STANDARD, bytes.into_inner());
    let decoded = decode_screenshot(&text).ok().expect("an image");
    assert_eq!((decoded.width(), decoded.height()), (3, 2));
    assert_eq!(decoded.rgba(), &vec![0u8; 24]);
}

#[test]
fn screenshot_errors() {
    assert!(matches!(decode_screenshot("!!not base64!!"), Err(ScreenshotError::Base64(_))));
    assert!(matches!(decode_screenshot("aGVsbG8="), Err(ScreenshotError::Image(_))));
}

#[test]
fn parse_basic_rules() {
    let rules = split_budget("CLS<0.1,TTI<3000,errors=0");
    assert_eq!(rules.len(), 3);
    assert_eq!(rules[0].metric, "cls");
    assert_eq!(rules[1].metric, "tti");
    assert_eq!(rules[2].metric, "errors");
}

#[test]
fn parse_with_spaces() {
    let rules = split_budget("CLS < 0.1, requests < 50");
    assert_eq!(rules.len(), 2);
}

#[test]
fn tracker_follows_its_call_history() {
    let mut tr = NetworkTracker::new();
    tr.on_request_sent("a", "https://a.test/", "GET");
    tr.on_request_sent("b", "https://b.test/", "GET");
    tr.on_request_sent("a", "https://a2.test/", "POST");
    assert_eq!(tr.get_url("a"), Some("https://a2.test/".to_string()));
    assert_eq!(tr.pending_count(), 2);
    tr.on_complete("a");
    tr.on_websocket_opened("b", "wss://b.test/");
    assert_eq!(tr.get_url("a"), None);
    assert_eq!(tr.get_url("b"), Some("https://b.test/".to_string()));
    assert_eq!(tr.pending_count(), 0);
    tr.on_websocket_closed("b");
    assert_eq!(tr.pending_count(), 1);
}

#[test]
fn clock_readings_map_to_nanoseconds() {
    assert_eq!(nanos_from_reading(None), 0);
    assert_eq!(nanos_from_reading(Some(42)), 42);
    assert_eq!(nanos_from_reading(Some(u64::MAX as u128 + 1)), u64::MAX);
    assert_eq!(advance(10, 5), 15);
    assert_eq!(advance(u64::MAX - 1, 5), u64::MAX);
}

#[test]
fn clock_never_moves_back() {
    let before = clock_now();
    let clock = Clock::start_now();
    let a = clock.now();
    let b = clock.now();
    assert!(a >= before);
    assert!(b >= a);
}
