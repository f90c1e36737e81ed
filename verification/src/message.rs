//! The plain data model of the pipeline: requests as the gateway receives
//! them, responses as canisters return them, and responses as the gateway
//! writes them.  Header names and values, bodies and URIs are byte strings;
//! the surrounding I/O layer converts to and from its own representations.

use vstd::prelude::*;

verus! {

/// A canister identity: the canonical bytes of its principal.
pub struct CanisterId {
    pub bytes: Vec<u8>,
}

impl View for CanisterId {
    type V = Seq<u8>;

    open spec fn view(&self) -> Seq<u8> {
        self.bytes@
    }
}

impl DeepView for CanisterId {
    type V = Seq<u8>;

    open spec fn deep_view(&self) -> Seq<u8> {
        self.bytes@
    }
}

/// One HTTP request as the gateway received it.
pub struct GatewayRequest {
    /// The request method, e.g. `GET`.
    pub method: Vec<u8>,
    /// The request target as received, path with optional query.
    pub uri: Vec<u8>,
    /// The request headers, in order.
    pub headers: Vec<(Vec<u8>, Vec<u8>)>,
    /// The whole request body.
    pub body: Vec<u8>,
}

/// The streaming directive of a canister response: the continuation lives
/// at `canister`, reachable through `method`.  The continuation token
/// itself is opaque to the pipeline and stays with the caller.
pub struct StreamingCallback {
    pub canister: CanisterId,
    pub method: Vec<u8>,
}

/// One response as a canister returned it.
pub struct CanisterResponse {
    pub status_code: u16,
    pub headers: Vec<(Vec<u8>, Vec<u8>)>,
    pub body: Vec<u8>,
    pub upgrade: Option<bool>,
    pub streaming: Option<StreamingCallback>,
}

/// One response as the gateway writes it.
pub struct GatewayResponse {
    pub status: u16,
    pub headers: Vec<(Vec<u8>, Vec<u8>)>,
    pub body: Vec<u8>,
}

impl GatewayResponse {
    /// A response with a status and a body and no headers.
    pub fn of_status_body(status: u16, body: Vec<u8>) -> (r: GatewayResponse)
        ensures
            r.status == status,
            r.headers@.len() == 0,
            r.body == body,
    {
        GatewayResponse { status, headers: Vec::new(), body }
    }
}

} // verus!
