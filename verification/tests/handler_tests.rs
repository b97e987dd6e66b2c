use pow_server::admission::AdmissionGate;
use pow_server::event::{NostrEvent, PowRequest};
use pow_server::handler::{clamp_difficulty, on_message, Action, ConnState, Incoming};
use pow_server::pow::perform_pow;

fn sample_request(target_pow: u32) -> PowRequest {
    PowRequest {
        event: NostrEvent {
            created_at: 1000,
            kind: 1,
            tags: vec![],
            content: "hi".to_string(),
            pubkey: "abc".to_string(),
        },
        target_pow,
    }
}

#[test]
fn clamping_substitutes_default_and_caps_at_maximum() {
    // An absurdly high request is searched at the configured maximum.
    assert_eq!(clamp_difficulty(10_000_000, 5, 20), 20);
    // Zero means "use the server default".
    assert_eq!(clamp_difficulty(0, 5, 20), 5);
    // The default itself is capped too.
    assert_eq!(clamp_difficulty(0, 30, 20), 20);
    // A modest request passes through unchanged.
    assert_eq!(clamp_difficulty(8, 5, 20), 8);
}

#[test]
fn request_is_clamped_before_compute() {
    let (state, action) = on_message(ConnState::Active, Incoming::Request(sample_request(10_000_000)), 5, 20);
    assert_eq!(state, ConnState::Active);
    match action {
        Action::Compute(req) => assert_eq!(req.target_pow, 20),
        _ => panic!("a well-formed request must be computed"),
    }
}

#[test]
fn malformed_message_keeps_connection_open() {
    let (state, action) = on_message(ConnState::Active, Incoming::Malformed, 0, 20);
    assert_eq!(state, ConnState::Active);
    assert!(matches!(action, Action::Idle));

    // A subsequent well-formed request on the same connection still succeeds.
    let (state, action) = on_message(state, Incoming::Request(sample_request(0)), 0, 20);
    assert_eq!(state, ConnState::Active);
    let req = match action {
        Action::Compute(req) => req,
        _ => panic!("a well-formed request must be computed"),
    };
    let response = perform_pow(req).expect("difficulty 0 must succeed");
    assert_eq!(
        response.event.tags,
        vec![vec!["nonce".to_string(), "0000000000000000".to_string()]]
    );
}

#[test]
fn ping_is_answered_with_matching_pong() {
    let payload = vec![1u8, 2, 3];
    let (state, action) = on_message(ConnState::Active, Incoming::Ping(payload.clone()), 0, 20);
    assert_eq!(state, ConnState::Active);
    match action {
        Action::Pong(echoed) => assert_eq!(echoed, payload),
        _ => panic!("a ping must be answered with a pong"),
    }
}

#[test]
fn close_and_read_error_end_the_connection() {
    let (state, action) = on_message(ConnState::Active, Incoming::CloseRequest, 0, 20);
    assert_eq!(state, ConnState::Closing);
    assert!(matches!(action, Action::Idle));

    let (state, action) = on_message(ConnState::Active, Incoming::ReadError, 0, 20);
    assert_eq!(state, ConnState::Closed);
    assert!(matches!(action, Action::Idle));

    // Once closed, nothing further is processed.
    let (state, action) = on_message(ConnState::Closed, Incoming::Ping(vec![]), 0, 20);
    assert_eq!(state, ConnState::Closed);
    assert!(matches!(action, Action::Idle));
}

#[test]
fn single_slot_gate_admits_one_connection_at_a_time() {
    let mut gate = AdmissionGate::new(1);
    assert!(gate.try_acquire());
    // The second connection cannot be admitted while the first holds the slot.
    assert!(!gate.try_acquire());
    assert!(!gate.try_acquire());
    // Once the first connection closes and releases, the slot is free again.
    gate.release();
    assert!(gate.try_acquire());
}

#[test]
fn closed_gate_admits_nobody() {
    let mut gate = AdmissionGate::new(4);
    gate.close();
    assert!(!gate.try_acquire());
}
