use podium_core::bridge::RequestBridge;
use podium_core::errors::QueryError;
use podium_core::protocol::{QueryOutcome, QueryResponse};
use podium_core::ui::{continue_running, desired_dims, resize_action, RunState, WindowDims};

fn failure_response(id: u64) -> QueryResponse {
    QueryResponse { id, outcome: QueryOutcome::Failure(QueryError::Timeout) }
}

#[test]
fn submission_order_is_preserved() {
    let mut bridge = RequestBridge::new();
    let id1 = bridge.submit(1, String::from("first query"));
    let id2 = bridge.submit(1, String::from("second query"));
    assert_ne!(id1, id2);

    let sent = bridge.take_outbox();
    assert_eq!(sent.len(), 2);
    assert_eq!(sent[0].id, id1);
    assert_eq!(sent[0].text, "first query");
    assert_eq!(sent[1].id, id2);
    assert_eq!(sent[1].text, "second query");

    assert_eq!(bridge.take_outbox().len(), 0);
    assert_eq!(bridge.waiter_count(), 2);
}

#[test]
fn response_reaches_only_its_own_caller() {
    let n: u64 = 50;
    let mut bridge = RequestBridge::new();
    let mut ids = Vec::new();
    for caller in 0..n {
        let id = bridge.submit(caller, format!("query number {}", caller));
        ids.push(id);
    }
    assert_eq!(bridge.waiter_count(), 50);

    // Complete the requests in a scrambled order; every response must land
    // at the caller that submitted the matching id.
    for step in 0..n {
        let k = (step * 7 + 3) % n;
        let delivered = bridge.route(failure_response(ids[k as usize]));
        match delivered {
            Some((caller, resp)) => {
                assert_eq!(caller, k);
                assert_eq!(resp.id, ids[k as usize]);
            }
            None => panic!("a waiting caller was skipped"),
        }
    }
    assert_eq!(bridge.waiter_count(), 0);
}

#[test]
fn response_without_waiter_is_discarded() {
    let mut bridge = RequestBridge::new();
    let id = bridge.submit(9, String::from("only request"));

    assert!(bridge.route(failure_response(id + 1)).is_none());
    assert_eq!(bridge.waiter_count(), 1);

    assert!(bridge.route(failure_response(id)).is_some());
    assert_eq!(bridge.waiter_count(), 0);

    // The slot is removed on delivery: a duplicate response is discarded.
    assert!(bridge.route(failure_response(id)).is_none());
}

#[test]
fn window_follows_run_state() {
    let searching = RunState { status: true, showing_results: false };
    let showing = RunState { status: true, showing_results: true };

    assert_eq!(desired_dims(&searching), WindowDims::Search);
    assert_eq!(desired_dims(&showing), WindowDims::Results);

    assert_eq!(resize_action(&showing, WindowDims::Search), Some(WindowDims::Results));
    assert_eq!(resize_action(&showing, WindowDims::Results), None);
    assert_eq!(resize_action(&searching, WindowDims::Results), Some(WindowDims::Search));
    assert_eq!(resize_action(&searching, WindowDims::Search), None);
    assert_eq!(resize_action(&showing, WindowDims::Other), None);
    assert_eq!(resize_action(&searching, WindowDims::Other), None);

    assert!(continue_running(true, &searching));
    assert!(!continue_running(false, &searching));
    assert!(!continue_running(true, &RunState { status: false, showing_results: false }));
}
