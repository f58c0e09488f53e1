use liveview::api::LiveViewResponse;
use liveview::negotiate::{
    is_busy_signal, liveview_request_path, run_negotiation, LiveviewReply, Negotiation,
    NegotiationOutcome, NegotiationStep, BUSY_RETRY_DELAY_SECONDS,
};
use liveview::LiveError;

fn endpoint() -> LiveViewResponse {
    LiveViewResponse {
        server: String::from("immis://host/path/id123__abc?client_id=7"),
        command_id: 42,
        polling_interval: 5,
    }
}

fn busy() -> LiveviewReply {
    LiveviewReply::Denied { message: b"camera is busy".to_vec() }
}

#[test]
fn liveview_path_families() {
    assert_eq!(
        liveview_request_path(5, 1, 2, b"camera"),
        b"/api/v5/accounts/5/networks/1/cameras/2/liveview".to_vec()
    );
    assert_eq!(
        liveview_request_path(5, 1, 2, b"sedona"),
        b"/api/v5/accounts/5/networks/1/cameras/2/liveview".to_vec()
    );
    assert_eq!(
        liveview_request_path(5, 1, 2, b"doorbell"),
        b"/api/v1/accounts/5/networks/1/doorbells/2/liveview".to_vec()
    );
    assert_eq!(
        liveview_request_path(5, 1, 2, b"tulip"),
        b"/api/v1/accounts/5/networks/1/doorbells/2/liveview".to_vec()
    );
    assert_eq!(
        liveview_request_path(5, 1, 2, b"owl"),
        b"/api/v1/accounts/5/networks/1/owls/2/liveview".to_vec()
    );
    assert_eq!(
        liveview_request_path(7, 10, 23, b"mini"),
        b"/api/v1/accounts/7/networks/10/owls/23/liveview".to_vec()
    );
}

#[test]
fn busy_classification() {
    assert!(is_busy_signal(b"camera is busy"));
    assert!(is_busy_signal(b"HTTP status 307 returned"));
    assert!(!is_busy_signal(b"internal error"));
}

#[test]
fn grant_on_first_call() {
    let mut replies = vec![LiveviewReply::Granted { endpoint: endpoint() }];
    match run_negotiation(&mut replies) {
        NegotiationOutcome::Granted { endpoint, calls } => {
            assert_eq!(calls, 1);
            assert_eq!(endpoint.command_id, 42);
            assert_eq!(endpoint.polling_interval, 5);
        }
        _ => panic!("a granted first reply must end the negotiation"),
    }
}

#[test]
fn grant_after_busy_retries() {
    // Three busy denials, then a grant: four calls in all.
    let mut replies = vec![busy(), busy(), busy(), LiveviewReply::Granted { endpoint: endpoint() }];
    match run_negotiation(&mut replies) {
        NegotiationOutcome::Granted { endpoint, calls } => {
            assert_eq!(calls, 4);
            assert_eq!(endpoint.server, "immis://host/path/id123__abc?client_id=7");
        }
        _ => panic!("the grant after retries must be returned"),
    }
}

#[test]
fn grant_on_final_budgeted_call() {
    // Four busy denials leave exactly one request in the budget.
    let mut replies =
        vec![busy(), busy(), busy(), busy(), LiveviewReply::Granted { endpoint: endpoint() }];
    match run_negotiation(&mut replies) {
        NegotiationOutcome::Granted { calls, .. } => assert_eq!(calls, 5),
        _ => panic!("the fifth call may still be granted"),
    }
}

#[test]
fn busy_exhaustion_after_five_calls() {
    // A camera that stays busy exhausts the budget after exactly
    // five calls; a grant that would come later is never requested.
    let mut replies = vec![
        busy(),
        busy(),
        busy(),
        busy(),
        busy(),
        LiveviewReply::Granted { endpoint: endpoint() },
    ];
    match run_negotiation(&mut replies) {
        NegotiationOutcome::BusyExhausted { calls } => assert_eq!(calls, 5),
        _ => panic!("five busy denials exhaust the budget"),
    }
    // The sixth reply was never consumed.
    assert_eq!(replies.len(), 1);
}

#[test]
fn non_busy_error_fails_immediately() {
    let mut replies = vec![
        busy(),
        LiveviewReply::Denied { message: b"500 internal".to_vec() },
        LiveviewReply::Granted { endpoint: endpoint() },
    ];
    match run_negotiation(&mut replies) {
        NegotiationOutcome::Failed { message, calls } => {
            assert_eq!(calls, 2);
            assert_eq!(message, b"500 internal".to_vec());
        }
        _ => panic!("a non-busy denial is never retried"),
    }
}

#[test]
fn step_reports_retry_delay_and_errors() {
    let mut st = Negotiation::new();
    match st.on_reply(busy()) {
        NegotiationStep::RetryAfterDelay { delay_seconds } => {
            assert_eq!(delay_seconds, BUSY_RETRY_DELAY_SECONDS);
            assert_eq!(delay_seconds, 4);
        }
        _ => panic!("the first busy reply asks for a delayed retry"),
    }
    match st.on_reply(LiveviewReply::Denied { message: b"boom".to_vec() }) {
        NegotiationStep::Failed { error, message } => {
            assert_eq!(error, LiveError::SessionNegotiationFailed);
            assert_eq!(message, b"boom".to_vec());
        }
        _ => panic!("a non-busy denial fails at once"),
    }
}

#[test]
fn step_exhaustion_error() {
    let mut st = Negotiation::new();
    for _ in 0..4 {
        let step = st.on_reply(busy());
        assert!(matches!(step, NegotiationStep::RetryAfterDelay { .. }));
    }
    match st.on_reply(busy()) {
        NegotiationStep::Failed { error, .. } => {
            assert_eq!(error, LiveError::DeviceBusyExhausted);
        }
        _ => panic!("the fifth busy reply exhausts the budget"),
    }
}
