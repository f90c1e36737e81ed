use ic_agent::export::Principal;
use icx_proxy::forward::{
    handle_call_result, needs_upgrade, process_canister_response, reply_from_validation,
    CallError, CallOutcome, ProcessOutcome, UPDATE_FIRST_POLL_DELAY_MS, UPDATE_POLL_TIMEOUT_MS,
};
use icx_proxy::message::{CanisterId, CanisterResponse, StreamingCallback};

const ID_A: &str = "ryjl3-tyaaa-aaaaa-aaaba-cai";

fn canister_id() -> CanisterId {
    CanisterId { bytes: Principal::from_text(ID_A).unwrap().as_slice().to_vec() }
}

fn agent() -> ic_agent::Agent {
    ic_agent::Agent::builder().with_url("http://127.0.0.1:4943").build().unwrap()
}

fn plain_response(status: u16, body: &[u8]) -> CanisterResponse {
    CanisterResponse {
        status_code: status,
        headers: Vec::new(),
        body: body.to_vec(),
        upgrade: None,
        streaming: None,
    }
}

#[test]
fn replica_reject_surfaces_code_and_message() {
    let result = Err(CallError::Reject { code: 3, message: b"out of cycles".to_vec() });
    match handle_call_result(result) {
        CallOutcome::Respond(g) => {
            assert_eq!(g.status, 500);
            assert_eq!(g.body, b"Replica Error (3): \"out of cycles\"".to_vec());
        }
        _ => panic!("expected a direct response"),
    }
}

#[test]
fn successful_call_passes_through() {
    let resp = plain_response(200, b"hello");
    match handle_call_result(Ok(resp)) {
        CallOutcome::Response(r) => {
            assert_eq!(r.status_code, 200);
            assert_eq!(r.body, b"hello".to_vec());
        }
        _ => panic!("expected the canister response"),
    }
}

#[test]
fn other_errors_propagate() {
    match handle_call_result(Err(CallError::Other(b"connection refused".to_vec()))) {
        CallOutcome::Fail(d) => assert_eq!(d, b"connection refused".to_vec()),
        _ => panic!("expected a failure"),
    }
}

#[test]
fn upgrade_flag_decides_update_retry() {
    let mut resp = plain_response(200, b"updated");
    assert!(!needs_upgrade(&resp));
    resp.upgrade = Some(false);
    assert!(!needs_upgrade(&resp));
    resp.upgrade = Some(true);
    assert!(needs_upgrade(&resp));
}

#[test]
fn uncertified_response_passes_through() {
    let out = process_canister_response(
        plain_response(200, b"hello"),
        &canister_id(),
        &agent(),
        b"/index.html",
    );
    match out {
        ProcessOutcome::Reply(g) => {
            assert_eq!(g.status, 200);
            assert_eq!(g.body, b"hello".to_vec());
        }
        _ => panic!("expected a reply"),
    }
}

#[test]
fn partial_certification_is_rejected() {
    let mut resp = plain_response(200, b"hello");
    resp.headers.push((b"IC-Certificate".to_vec(), b"certificate=:aGVsbG8=:".to_vec()));
    match process_canister_response(resp, &canister_id(), &agent(), b"/index.html") {
        ProcessOutcome::Reply(g) => {
            assert_eq!(g.status, 500);
            assert_eq!(g.body, b"Body does not pass verification".to_vec());
        }
        _ => panic!("expected a reply"),
    }
}

#[test]
fn undecodable_pair_reports_malformed_certificate() {
    let mut resp = plain_response(200, b"hello");
    // Both fields decode as base64 but neither parses as CBOR.
    resp.headers.push((
        b"IC-Certificate".to_vec(),
        b"certificate=:aGVsbG8=:, tree=:d29ybGQ=:".to_vec(),
    ));
    match process_canister_response(resp, &canister_id(), &agent(), b"/index.html") {
        ProcessOutcome::Reply(g) => {
            assert_eq!(g.status, 500);
            assert!(g.body.starts_with(b"Certificate validation failed: "));
        }
        _ => panic!("expected a reply"),
    }
}

#[test]
fn validation_outcome_shapes_the_reply() {
    let headers = vec![(b"Connection".to_vec(), b"keep-alive".to_vec())];
    let ok = reply_from_validation(Ok(()), 201, headers.clone(), b"body".to_vec());
    // Verbatim passthrough: hop-by-hop headers are kept on this path.
    assert_eq!(ok.status, 201);
    assert_eq!(ok.headers, headers);
    assert_eq!(ok.body, b"body".to_vec());
    let rejected =
        reply_from_validation(Err(b"why".to_vec()), 201, headers, b"body".to_vec());
    assert_eq!(rejected.status, 500);
    assert!(rejected.headers.is_empty());
    assert_eq!(rejected.body, b"why".to_vec());
}

#[test]
fn update_polling_parameters() {
    assert_eq!(UPDATE_FIRST_POLL_DELAY_MS, 500);
    assert_eq!(UPDATE_POLL_TIMEOUT_MS, 15_000);
}

#[test]
fn streaming_response_hands_off_uncertified() {
    let mut resp = plain_response(200, b"part1");
    resp.streaming = Some(StreamingCallback { canister: canister_id(), method: b"cb".to_vec() });
    match process_canister_response(resp, &canister_id(), &agent(), b"/index.html") {
        ProcessOutcome::Stream { status, initial_body, callback, .. } => {
            assert_eq!(status, 200);
            assert_eq!(initial_body, b"part1".to_vec());
            assert_eq!(callback.method, b"cb".to_vec());
        }
        _ => panic!("expected a streaming hand-off"),
    }
}

#[test]
fn impossible_status_code_fails() {
    match process_canister_response(
        plain_response(42, b""),
        &canister_id(),
        &agent(),
        b"/",
    ) {
        ProcessOutcome::Fail(_) => {}
        _ => panic!("expected a failure"),
    }
}
