use bulwark_ext_filter::decision::{Decision, Outcome, Thresholds, MASS_SCALE};
use bulwark_ext_filter::driver::{Action, DriverState, Event, Transaction};
use bulwark_ext_filter::phase::{
    aggregate_phase, classify_entry_point, DecisionComponents, EntryPointResult, PhaseOutcome,
};
use bulwark_ext_filter::response::ResponseFrame;
use bulwark_ext_filter::router::{RouteTable, RouteTarget};

fn d(accept: u64, restrict: u64, unknown: u64) -> Decision {
    Decision { accept, restrict, unknown }
}

fn completed(decision: Decision, tags: &[&str]) -> PhaseOutcome {
    PhaseOutcome::Completed(DecisionComponents {
        decision,
        tags: tags.iter().map(|t| t.to_string()).collect(),
    })
}

fn h(pairs: &[(&str, &str)]) -> Vec<(String, String)> {
    pairs.iter().map(|(k, v)| (k.to_string(), v.to_string())).collect()
}

fn request_event(path: &str) -> Event {
    Event::RequestHeaders {
        headers: h(&[
            (":method", "GET"),
            (":path", path),
            (":scheme", "http"),
            (":authority", "example.com"),
        ]),
        end_of_stream: true,
    }
}

fn response_event() -> Event {
    Event::ResponseHeaders {
        headers: h(&[(":status", "200")]),
        end_of_stream: true,
    }
}

fn table_with_route(path: &str, plugin_ids: &[u64], timeout_millis: Option<u64>) -> RouteTable {
    let mut table = RouteTable::new();
    assert!(table.insert(
        &path.to_string(),
        RouteTarget {
            pattern: path.to_string(),
            plugin_ids: plugin_ids.to_vec(),
            timeout_millis,
        },
    ));
    table
}

/// Runs a transaction up to the request-decision phase result.
fn run_request_phase(table: &RouteTable, results: Vec<PhaseOutcome>) -> (Transaction, Vec<Action>) {
    let mut txn = Transaction::new(Thresholds::default());
    let actions = txn.step(table, request_event("/a"));
    assert!(matches!(actions[0], Action::Instantiate { .. }));
    let actions = txn.step(table, Event::Instantiated { ok: true });
    assert!(matches!(actions[0], Action::RunPhaseOne { .. }));
    let actions = txn.step(table, Event::PhaseOneDone);
    assert!(matches!(actions[0], Action::RunPhaseTwo { .. }));
    let actions = txn.step(table, Event::PhaseTwoDone { results });
    (txn, actions)
}

fn decision_header(frame: &ResponseFrame) -> (String, String) {
    match frame {
        ResponseFrame::RequestHeaders { set_headers } => set_headers[0].clone(),
        other => panic!("not a request headers frame: {:?}", other),
    }
}

#[test]
fn single_trusted_plugin_forwards_annotated() {
    // one plugin fully accepting: Trusted, annotated forward, response
    // phase runs, final response-direction frame emitted
    let table = table_with_route("/a", &[1], None);
    let (mut txn, actions) = run_request_phase(&table, vec![completed(d(MASS_SCALE, 0, 0), &[])]);
    assert_eq!(actions.len(), 1);
    match &actions[0] {
        Action::EmitRequestFrame { frame } => {
            let (k, v) = decision_header(frame);
            assert_eq!(k, "Bulwark-Decision");
            assert_eq!(v, "accept=1.000000, restrict=0.000000, unknown=0.000000");
            match frame {
                ResponseFrame::RequestHeaders { set_headers } => assert_eq!(set_headers.len(), 1),
                _ => unreachable!(),
            }
        }
        other => panic!("unexpected action: {:?}", other),
    }

    let actions = txn.step(&table, response_event());
    assert!(matches!(actions[0], Action::DistributeResponse { .. }));
    assert!(matches!(actions[1], Action::RunPhaseThree { .. }));

    let actions = txn.step(
        &table,
        Event::PhaseThreeDone { results: vec![completed(d(MASS_SCALE, 0, 0), &[])] },
    );
    assert_eq!(actions.len(), 3);
    match &actions[0] {
        Action::EmitResponseFrame { frame } => {
            assert!(matches!(frame, ResponseFrame::ResponseHeaders))
        }
        other => panic!("unexpected action: {:?}", other),
    }
    match &actions[1] {
        Action::DeliverFeedback { outcome, .. } => assert_eq!(*outcome, Outcome::Trusted),
        other => panic!("unexpected action: {:?}", other),
    }
    assert!(matches!(actions[2], Action::CloseStream));
}

#[test]
fn single_restricting_plugin_blocks_immediately() {
    // an immediate 403, no response phase, feedback fires with Restricted
    let table = table_with_route("/a", &[1], None);
    let (txn, actions) = run_request_phase(&table, vec![completed(d(0, MASS_SCALE, 0), &[])]);
    assert_eq!(actions.len(), 3);
    match &actions[0] {
        Action::EmitRequestFrame { frame } => match frame {
            ResponseFrame::ImmediateResponse { status, details, body } => {
                assert_eq!(*status, 403);
                assert_eq!(details, "blocked by bulwark");
                assert_eq!(body, "Bulwark says no.");
            }
            other => panic!("unexpected frame: {:?}", other),
        },
        other => panic!("unexpected action: {:?}", other),
    }
    match &actions[1] {
        Action::DeliverFeedback { decision, outcome, .. } => {
            assert_eq!(*decision, d(0, MASS_SCALE, 0));
            assert_eq!(*outcome, Outcome::Restricted);
        }
        other => panic!("unexpected action: {:?}", other),
    }
    assert!(matches!(actions[2], Action::CloseStream));
    match txn.state {
        DriverState::Done { request_frames, response_frames, blocked_on_request } => {
            assert_eq!((request_frames, response_frames, blocked_on_request), (1, 0, true));
        }
        other => panic!("unexpected state: {:?}", other),
    }
}

#[test]
fn conflicting_plugins_combine_to_unknown() {
    // total conflict yields the neutral decision: Accepted, forwarded
    let table = table_with_route("/a", &[1, 2], None);
    let (_, actions) = run_request_phase(
        &table,
        vec![completed(d(MASS_SCALE, 0, 0), &[]), completed(d(0, MASS_SCALE, 0), &[])],
    );
    assert_eq!(actions.len(), 1);
    match &actions[0] {
        Action::EmitRequestFrame { frame } => {
            let (k, v) = decision_header(frame);
            assert_eq!(k, "Bulwark-Decision");
            assert_eq!(v, "accept=0.000000, restrict=0.000000, unknown=1.000000");
        }
        other => panic!("unexpected action: {:?}", other),
    }
}

#[test]
fn timed_out_plugin_is_excluded() {
    // plugin A restricts in time, plugin B misses the deadline: the
    // combined decision equals A's alone, the outcome is Restricted, and
    // feedback still carries the route's deadline
    let table = table_with_route("/a", &[1, 2], Some(5));
    let (_, actions) = run_request_phase(
        &table,
        vec![completed(d(0, MASS_SCALE, 0), &[]), PhaseOutcome::TimedOut],
    );
    assert_eq!(actions.len(), 3);
    match &actions[1] {
        Action::DeliverFeedback { decision, outcome, timeout_millis, .. } => {
            assert_eq!(*decision, d(0, MASS_SCALE, 0));
            assert_eq!(*outcome, Outcome::Restricted);
            assert_eq!(*timeout_millis, 5);
        }
        other => panic!("unexpected action: {:?}", other),
    }
}

#[test]
fn errored_plugin_is_excluded() {
    let results = vec![
        completed(d(MASS_SCALE, 0, 0), &["good"]),
        PhaseOutcome::Errored,
        PhaseOutcome::TimedOut,
    ];
    let dc = aggregate_phase(&results);
    assert_eq!(dc.decision, d(MASS_SCALE, 0, 0));
    assert_eq!(dc.tags, vec!["good".to_string()]);
}

#[test]
fn unknown_route_closes_silently() {
    // no frames, no instantiation
    let table = table_with_route("/a", &[1], None);
    let mut txn = Transaction::new(Thresholds::default());
    let actions = txn.step(&table, request_event("/unknown"));
    assert_eq!(actions.len(), 1);
    assert!(matches!(actions[0], Action::CloseStream));
    match txn.state {
        DriverState::Done { request_frames, response_frames, .. } => {
            assert_eq!((request_frames, response_frames), (0, 0));
        }
        other => panic!("unexpected state: {:?}", other),
    }
}

#[test]
fn tags_aggregate_sorted_across_plugins() {
    // tags ["b","a"] and ["a","c"] surface as "a, b, c"
    let table = table_with_route("/a", &[1, 2], None);
    let (_, actions) = run_request_phase(
        &table,
        vec![
            completed(d(MASS_SCALE, 0, 0), &["b", "a"]),
            completed(d(0, 0, MASS_SCALE), &["a", "c"]),
        ],
    );
    match &actions[0] {
        Action::EmitRequestFrame { frame } => match frame {
            ResponseFrame::RequestHeaders { set_headers } => {
                assert_eq!(set_headers.len(), 2);
                assert_eq!(set_headers[1].0, "Bulwark-Tags");
                assert_eq!(set_headers[1].1, "a, b, c");
            }
            other => panic!("unexpected frame: {:?}", other),
        },
        other => panic!("unexpected action: {:?}", other),
    }
}

#[test]
fn instantiation_failure_reports_internal_error() {
    let table = table_with_route("/a", &[1], None);
    let mut txn = Transaction::new(Thresholds::default());
    txn.step(&table, request_event("/a"));
    let actions = txn.step(&table, Event::Instantiated { ok: false });
    assert_eq!(actions.len(), 2);
    match &actions[0] {
        Action::EmitRequestFrame { frame } => match frame {
            ResponseFrame::ImmediateResponse { status, .. } => assert_eq!(*status, 500),
            other => panic!("unexpected frame: {:?}", other),
        },
        other => panic!("unexpected action: {:?}", other),
    }
    assert!(matches!(actions[1], Action::CloseStream));
}

#[test]
fn stream_end_before_response_phase_still_delivers_feedback() {
    let table = table_with_route("/a", &[1], None);
    let (mut txn, _) = run_request_phase(&table, vec![completed(d(MASS_SCALE, 0, 0), &[])]);
    let actions = txn.step(&table, Event::NoResponseHeaders);
    assert_eq!(actions.len(), 2);
    match &actions[0] {
        Action::DeliverFeedback { outcome, .. } => assert_eq!(*outcome, Outcome::Trusted),
        other => panic!("unexpected action: {:?}", other),
    }
    assert!(matches!(actions[1], Action::CloseStream));
}

#[test]
fn transport_drop_emits_nothing_further() {
    let table = table_with_route("/a", &[1], None);
    let mut txn = Transaction::new(Thresholds::default());
    txn.step(&table, request_event("/a"));
    let actions = txn.step(&table, Event::TransportClosed);
    assert_eq!(actions.len(), 1);
    assert!(matches!(actions[0], Action::CloseStream));
    let actions = txn.step(&table, Event::PhaseOneDone);
    assert!(actions.is_empty());
}

#[test]
fn route_timeout_defaults_to_ten_millis() {
    let table = table_with_route("/a", &[1], None);
    let mut txn = Transaction::new(Thresholds::default());
    txn.step(&table, request_event("/a"));
    let actions = txn.step(&table, Event::Instantiated { ok: true });
    match &actions[0] {
        Action::RunPhaseOne { timeout_millis } => assert_eq!(*timeout_millis, 10),
        other => panic!("unexpected action: {:?}", other),
    }
}

#[test]
fn suspected_request_is_forwarded() {
    // suspected transactions are monitored, not rejected
    let table = table_with_route("/a", &[1], None);
    let (_, actions) = run_request_phase(&table, vec![completed(d(0, 700_000, 300_000), &[])]);
    assert_eq!(actions.len(), 1);
    match &actions[0] {
        Action::EmitRequestFrame { frame } => {
            assert!(matches!(frame, ResponseFrame::RequestHeaders { .. }));
        }
        other => panic!("unexpected action: {:?}", other),
    }
}

#[test]
fn response_phase_can_block() {
    let table = table_with_route("/a", &[1], None);
    let (mut txn, _) = run_request_phase(&table, vec![completed(d(MASS_SCALE, 0, 0), &[])]);
    txn.step(&table, response_event());
    let actions = txn.step(
        &table,
        Event::PhaseThreeDone { results: vec![completed(d(0, MASS_SCALE, 0), &[])] },
    );
    match &actions[0] {
        Action::EmitResponseFrame { frame } => match frame {
            ResponseFrame::ImmediateResponse { status, body, .. } => {
                assert_eq!(*status, 403);
                assert_eq!(body, "Bulwark says no.");
            }
            other => panic!("unexpected frame: {:?}", other),
        },
        other => panic!("unexpected action: {:?}", other),
    }
    match &actions[1] {
        Action::DeliverFeedback { outcome, .. } => assert_eq!(*outcome, Outcome::Restricted),
        other => panic!("unexpected action: {:?}", other),
    }
}

#[test]
fn unusable_response_headers_still_deliver_feedback() {
    let table = table_with_route("/a", &[1], None);
    let (mut txn, _) = run_request_phase(&table, vec![completed(d(MASS_SCALE, 0, 0), &[])]);
    let actions = txn.step(
        &table,
        Event::ResponseHeaders { headers: h(&[("server", "upstream")]), end_of_stream: true },
    );
    assert_eq!(actions.len(), 2);
    match &actions[0] {
        Action::DeliverFeedback { outcome, .. } => assert_eq!(*outcome, Outcome::Trusted),
        other => panic!("unexpected action: {:?}", other),
    }
    assert!(matches!(actions[1], Action::CloseStream));
}

#[test]
fn path_parameters_reach_instantiation() {
    let table = table_with_route("/foo/:id", &[1], None);
    let mut txn = Transaction::new(Thresholds::default());
    let actions = txn.step(&table, request_event("/foo/42"));
    match &actions[0] {
        Action::Instantiate { params, request, .. } => {
            assert_eq!(params, &vec![("id".to_string(), "42".to_string())]);
            assert_eq!(request.path, "/foo/42");
            assert_eq!(request.method, "GET");
        }
        other => panic!("unexpected action: {:?}", other),
    }
}

#[test]
fn entry_point_classification() {
    let dc = DecisionComponents { decision: d(0, 0, MASS_SCALE), tags: vec!["t".to_string()] };
    match classify_entry_point(EntryPointResult::Returned, dc.clone()) {
        PhaseOutcome::Completed(kept) => {
            assert_eq!(kept.decision, dc.decision);
            assert_eq!(kept.tags, dc.tags);
        }
        other => panic!("unexpected outcome: {:?}", other),
    }
    assert!(matches!(
        classify_entry_point(EntryPointResult::NotImplemented, dc.clone()),
        PhaseOutcome::Completed(_)
    ));
    assert!(matches!(
        classify_entry_point(EntryPointResult::Trap, dc.clone()),
        PhaseOutcome::Errored
    ));
    assert!(matches!(
        classify_entry_point(EntryPointResult::HostError, dc.clone()),
        PhaseOutcome::Errored
    ));
    assert!(matches!(
        classify_entry_point(EntryPointResult::DeadlineExceeded, dc),
        PhaseOutcome::TimedOut
    ));
}

#[test]
fn response_phase_uses_configured_thresholds() {
    // restrict 0.5 blocks under a configured restrict threshold of 0.2,
    // though the default thresholds would have forwarded it
    let table = table_with_route("/a", &[1], None);
    let configured = Thresholds { trust: 900_000, suspicious: 100_000, restrict: 200_000 };
    let mut txn = Transaction::new(configured);
    txn.step(&table, request_event("/a"));
    txn.step(&table, Event::Instantiated { ok: true });
    txn.step(&table, Event::PhaseOneDone);
    let actions = txn.step(
        &table,
        Event::PhaseTwoDone { results: vec![completed(d(MASS_SCALE, 0, 0), &[])] },
    );
    assert!(matches!(actions[0], Action::EmitRequestFrame { .. }));
    txn.step(&table, response_event());
    let actions = txn.step(
        &table,
        Event::PhaseThreeDone { results: vec![completed(d(0, 500_000, 500_000), &[])] },
    );
    match &actions[0] {
        Action::EmitResponseFrame { frame } => match frame {
            ResponseFrame::ImmediateResponse { status, .. } => assert_eq!(*status, 403),
            other => panic!("unexpected frame: {:?}", other),
        },
        other => panic!("unexpected action: {:?}", other),
    }
    match &actions[1] {
        Action::DeliverFeedback { outcome, .. } => assert_eq!(*outcome, Outcome::Restricted),
        other => panic!("unexpected action: {:?}", other),
    }
}
