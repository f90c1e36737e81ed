//! The request forwarder: the decision steps of serving one canister
//! request.
//!
//! The caller (the I/O layer) issues the actual canister calls; this module
//! decides what each step means: which canister the request addresses, how
//! a call result maps to a response or to a retry as an update call, and
//! what becomes of the canister's response — streamed out, passed through,
//! or rejected by the certification check.

use vstd::prelude::*;

use crate::ascii::{append_bytes, dec_digits, u64_to_dec};
use crate::body_hash::body_digest_spec;
use crate::certification::{
    cert_decodes, certification_matrix, certified_rejection, tree_decodes, validate,
    verification_failed_msg,
};
use crate::headers::{ascii_bytes, extract_headers_data, extract_spec};
use crate::message::{
    CanisterId, CanisterResponse, GatewayRequest, GatewayResponse, StreamingCallback,
};
use crate::resolver::{resolve_canister_id, resolve_spec, uri_path, DnsConfig};

use vstd::string::StringSliceAdditionalSpecFns;

verus! {

/// The fixed body of the response when no canister can be resolved.
pub open spec fn bad_request_msg() -> Seq<u8> {
    ascii_bytes("Could not find a canister id to forward to."@)
}

fn bad_request_label() -> (r: &'static [u8])
    ensures
        r@ == bad_request_msg(),
{
    let s = "Could not find a canister id to forward to.";
    proof {
        reveal_strlit("Could not find a canister id to forward to.");
        vstd::string::is_ascii_spec_bytes(s);
        assert(s.spec_bytes() =~= bad_request_msg());
    }
    s.as_bytes()
}

/// What to do with one incoming canister-path request.
pub enum ForwardAction {
    /// Answer at once, without a canister call.
    Respond(GatewayResponse),
    /// Issue the canister's HTTP-request method on this canister.
    Call(CanisterId),
}

/// Begins forwarding: resolves the canister, or answers `400` with the
/// fixed body when no rule applies.
pub fn forward_start(request: &GatewayRequest, config: &DnsConfig) -> (r: ForwardAction)
    ensures
        resolve_spec(request.headers.deep_view(), request.uri@, config@) is None ==> (r matches
            ForwardAction::Respond(g) && g.status == 400 && g.body@ == bad_request_msg()
            && g.headers@.len() == 0),
        (match resolve_spec(request.headers.deep_view(), request.uri@, config@) {
            Some(id) => r matches ForwardAction::Call(c) && c@ == id,
            None => true,
        }),
{
    match resolve_canister_id(request, config) {
        Some(id) => ForwardAction::Call(id),
        None => ForwardAction::Respond(
            GatewayResponse::of_status_body(
                400,
                vstd::slice::slice_to_vec(bad_request_label()),
            ),
        ),
    }
}

/// How a canister call can fail, as the pipeline reads it.
pub enum CallError {
    /// The replica rejected the call and advertised a code and message.
    Reject { code: u64, message: Vec<u8> },
    /// Transport, encoding or any other failure, with its description.
    Other(Vec<u8>),
}

/// The body that surfaces a replica reject to the client.
pub open spec fn replica_error_body(code: u64, message: Seq<u8>) -> Seq<u8> {
    ascii_bytes("Replica Error ("@) + dec_digits(code as nat) + ascii_bytes("): \""@) + message
        + ascii_bytes("\""@)
}

/// What one canister call result leads to.
pub enum CallOutcome {
    /// The call succeeded: here is the canister's response.
    Response(CanisterResponse),
    /// Answer the client at once with this response.
    Respond(GatewayResponse),
    /// Fail the request; the dispatcher turns this into an internal error.
    Fail(Vec<u8>),
}

/// Maps a canister call result: a replica reject becomes a `500` carrying
/// the advertised code and message verbatim — the same information is
/// externally retrievable, so surfacing it leaks nothing — and any other
/// failure propagates to the dispatcher.
pub fn handle_call_result(result: Result<CanisterResponse, CallError>) -> (r: CallOutcome)
    ensures
        (match result {
            Ok(resp) => r == CallOutcome::Response(resp),
            Err(CallError::Reject { code, message }) => r matches CallOutcome::Respond(g)
                && g.status == 500 && g.headers@.len() == 0 && g.body@ == replica_error_body(
                code,
                message@,
            ),
            Err(CallError::Other(d)) => r == CallOutcome::Fail(d),
        }),
{
    match result {
        Ok(resp) => CallOutcome::Response(resp),
        Err(CallError::Reject { code, message }) => {
            let p1 = "Replica Error (";
            let p2 = "): \"";
            let p3 = "\"";
            proof {
                reveal_strlit("Replica Error (");
                reveal_strlit("): \"");
                reveal_strlit("\"");
                vstd::string::is_ascii_spec_bytes(p1);
                vstd::string::is_ascii_spec_bytes(p2);
                vstd::string::is_ascii_spec_bytes(p3);
                assert(p1.spec_bytes() =~= ascii_bytes("Replica Error ("@));
                assert(p2.spec_bytes() =~= ascii_bytes("): \""@));
                assert(p3.spec_bytes() =~= ascii_bytes("\""@));
            }
            let mut body: Vec<u8> = Vec::new();
            append_bytes(&mut body, p1.as_bytes());
            let digits = u64_to_dec(code);
            append_bytes(&mut body, digits.as_slice());
            append_bytes(&mut body, p2.as_bytes());
            append_bytes(&mut body, message.as_slice());
            append_bytes(&mut body, p3.as_bytes());
            proof {
                assert(body@ =~= replica_error_body(code, message@));
            }
            CallOutcome::Respond(GatewayResponse::of_status_body(500, body))
        },
        Err(CallError::Other(d)) => CallOutcome::Fail(d),
    }
}

/// The delay before the first poll of an update call, in milliseconds.
/// The agent's polling strategy opens at this delay; the caller holds the
/// agent's configuration to it.
pub const UPDATE_FIRST_POLL_DELAY_MS: u64 = 500;

/// The overall polling timeout of an update call, in milliseconds.  The
/// caller configures the agent's maximum polling time with this.
pub const UPDATE_POLL_TIMEOUT_MS: u64 = 15_000;

/// Whether the canister asked for the request to be re-issued as a
/// consensus-bound update call.
pub fn needs_upgrade(response: &CanisterResponse) -> (r: bool)
    ensures
        r == (response.upgrade == Some(true)),
{
    match response.upgrade {
        Some(true) => true,
        _ => false,
    }
}

/// The detail when a canister returns a status code HTTP cannot carry.
pub open spec fn invalid_status_msg() -> Seq<u8> {
    ascii_bytes("Invalid canister response status code"@)
}

fn invalid_status_label() -> (r: &'static [u8])
    ensures
        r@ == invalid_status_msg(),
{
    let s = "Invalid canister response status code";
    proof {
        reveal_strlit("Invalid canister response status code");
        vstd::string::is_ascii_spec_bytes(s);
        assert(s.spec_bytes() =~= invalid_status_msg());
    }
    s.as_bytes()
}

/// What becomes of a canister response.
pub enum ProcessOutcome {
    /// Write this response to the client.
    Reply(GatewayResponse),
    /// Write status, headers and the initial body, then assemble the rest
    /// through the callback; streamed bodies are not certified.
    Stream {
        status: u16,
        headers: Vec<(Vec<u8>, Vec<u8>)>,
        initial_body: Vec<u8>,
        callback: StreamingCallback,
    },
    /// Fail the request; the dispatcher turns this into an internal error.
    Fail(Vec<u8>),
}

/// Turns one canister response into what the client receives: a streamed
/// response is handed off uncertified; anything else is checked by the
/// certification verifier and either passed through verbatim or replaced
/// by a `500` carrying the failure reason.
pub fn process_canister_response(
    response: CanisterResponse,
    canister_id: &CanisterId,
    agent: &ic_agent::Agent,
    request_uri: &[u8],
) -> (r: ProcessOutcome)
    ensures
        !(100 <= response.status_code <= 999) ==> (r matches ProcessOutcome::Fail(d) && d@
            == invalid_status_msg()),
        (100 <= response.status_code <= 999 && response.streaming is Some) ==> (r matches
            ProcessOutcome::Stream { status, headers, initial_body, callback } && {
            &&& status == response.status_code
            &&& headers == response.headers
            &&& initial_body == response.body
            &&& Some(callback) == response.streaming
        }),
        (100 <= response.status_code <= 999 && response.streaming is None) ==> {
            let hd = extract_spec(response.headers.deep_view());
            let digest = body_digest_spec(response.body@, hd.encoding);
            &&& digest is None ==> (r matches ProcessOutcome::Reply(g) && g.status == 500
                && g.body@ == verification_failed_msg())
            &&& (digest is Some && certification_matrix(hd.certificate, hd.tree) is Accept) ==> (
            r matches ProcessOutcome::Reply(g) && g.status == response.status_code && g.headers
                == response.headers && g.body == response.body)
            &&& (digest is Some && certification_matrix(hd.certificate, hd.tree) is Reject) ==> (
            r matches ProcessOutcome::Reply(g) && g.status == 500 && g.body@
                == verification_failed_msg())
            &&& (match (hd.certificate, hd.tree) {
                (Some(Ok(c)), Some(Ok(t))) => digest is Some ==> (r matches
                    ProcessOutcome::Reply(g) && ((g.status == response.status_code && g.headers
                    == response.headers && g.body == response.body) || (g.status == 500
                    && g.headers@.len() == 0 && certified_rejection(c, t, g.body@)))
                    && (!(cert_decodes(c) && tree_decodes(t)) ==> g.status == 500
                    && certified_rejection(c, t, g.body@))),
                _ => true,
            })
        },
{
    if !(response.status_code >= 100 && response.status_code <= 999) {
        return ProcessOutcome::Fail(vstd::slice::slice_to_vec(invalid_status_label()));
    }
    let CanisterResponse { status_code, headers, body, upgrade: _, streaming } = response;
    match streaming {
        Some(callback) => ProcessOutcome::Stream {
            status: status_code,
            headers,
            initial_body: body,
            callback,
        },
        None => {
            let headers_data = extract_headers_data(&headers);
            let path = match uri_path(request_uri) {
                Some(p) => p,
                None => Vec::new(),
            };
            let validation = validate(
                &headers_data,
                canister_id.bytes.as_slice(),
                agent,
                path.as_slice(),
                body.as_slice(),
            );
            ProcessOutcome::Reply(reply_from_validation(validation, status_code, headers, body))
        },
    }
}

/// Builds the client's response from the verifier's answer: a response
/// that passed goes through verbatim — status, headers (hop-by-hop ones
/// included, on this path) and body — and a rejected one becomes a `500`
/// whose body is the failure reason.
pub fn reply_from_validation(
    validation: Result<(), Vec<u8>>,
    status: u16,
    headers: Vec<(Vec<u8>, Vec<u8>)>,
    body: Vec<u8>,
) -> (r: GatewayResponse)
    ensures
        validation is Ok ==> r.status == status && r.headers == headers && r.body == body,
        (validation matches Err(m) ==> r.status == 500 && r.headers@.len() == 0 && r.body == m),
{
    match validation {
        Ok(()) => GatewayResponse { status, headers, body },
        Err(m) => GatewayResponse::of_status_body(500, m),
    }
}

} // verus!
