//! The dispatcher: classifies each request by path prefix, picks a replica
//! per connection round-robin, and supplies the fixed error responses.

use vstd::prelude::*;

use crate::ascii::{append_bytes, starts_with, starts_with_bytes};
use crate::headers::ascii_bytes;
use crate::message::GatewayResponse;

use vstd::arithmetic::div_mod::{
    lemma_fundamental_div_mod, lemma_fundamental_div_mod_converse,
};
use vstd::string::StringSliceAdditionalSpecFns;

verus! {

/// The path prefix served by the replica pass-through.
pub open spec fn api_prefix() -> Seq<u8> {
    ascii_bytes("/api/"@)
}

/// The path prefix served by the configured proxy.
pub open spec fn underscore_prefix() -> Seq<u8> {
    ascii_bytes("/_/"@)
}

/// The exception under the proxy prefix that stays on the canister path.
pub open spec fn raw_prefix() -> Seq<u8> {
    ascii_bytes("/_/raw"@)
}

/// Who handles a request.
pub enum RouteClass {
    /// Forward to the selected replica.
    Api,
    /// Forward to the configured proxy URL.
    Proxy,
    /// The proxy prefix without a configured proxy: `404`.
    ProxyNotConfigured,
    /// The canister request pipeline.
    Canister,
}

/// The classification of a request path.
pub open spec fn classify_spec(path: Seq<u8>, has_proxy: bool) -> RouteClass {
    if starts_with(path, api_prefix()) {
        RouteClass::Api
    } else if starts_with(path, underscore_prefix()) && !starts_with(path, raw_prefix()) {
        if has_proxy {
            RouteClass::Proxy
        } else {
            RouteClass::ProxyNotConfigured
        }
    } else {
        RouteClass::Canister
    }
}

/// Classifies a request path: `/api/` goes to the replica, `/_/` — but not
/// `/_/raw` — to the proxy when one is configured, everything else to the
/// canister pipeline.
pub fn classify_request(path: &[u8], has_proxy: bool) -> (r: RouteClass)
    ensures
        r == classify_spec(path@, has_proxy),
{
    let api = "/api/";
    let underscore = "/_/";
    let raw = "/_/raw";
    proof {
        reveal_strlit("/api/");
        reveal_strlit("/_/");
        reveal_strlit("/_/raw");
        vstd::string::is_ascii_spec_bytes(api);
        vstd::string::is_ascii_spec_bytes(underscore);
        vstd::string::is_ascii_spec_bytes(raw);
        assert(api.spec_bytes() =~= api_prefix());
        assert(underscore.spec_bytes() =~= underscore_prefix());
        assert(raw.spec_bytes() =~= raw_prefix());
    }
    if starts_with_bytes(path, api.as_bytes()) {
        RouteClass::Api
    } else if starts_with_bytes(path, underscore.as_bytes()) && !starts_with_bytes(
        path,
        raw.as_bytes(),
    ) {
        if has_proxy {
            RouteClass::Proxy
        } else {
            RouteClass::ProxyNotConfigured
        }
    } else {
        RouteClass::Canister
    }
}

/// The fixed `404` response.
pub fn not_found() -> (r: GatewayResponse)
    ensures
        r.status == 404,
        r.body@ == ascii_bytes("Not found"@),
        r.headers@.len() == 0,
{
    let s = "Not found";
    proof {
        reveal_strlit("Not found");
        vstd::string::is_ascii_spec_bytes(s);
        assert(s.spec_bytes() =~= ascii_bytes("Not found"@));
    }
    GatewayResponse::of_status_body(404, vstd::slice::slice_to_vec(s.as_bytes()))
}

/// The fixed response when the root key cannot be fetched.
pub fn unable_to_fetch_root_key() -> (r: GatewayResponse)
    ensures
        r.status == 500,
        r.body@ == ascii_bytes("Unable to fetch root key"@),
        r.headers@.len() == 0,
{
    let s = "Unable to fetch root key";
    proof {
        reveal_strlit("Unable to fetch root key");
        vstd::string::is_ascii_spec_bytes(s);
        assert(s.spec_bytes() =~= ascii_bytes("Unable to fetch root key"@));
    }
    GatewayResponse::of_status_body(500, vstd::slice::slice_to_vec(s.as_bytes()))
}

/// The body of an internal error: full detail when running in debug, a
/// fixed string otherwise.
pub open spec fn internal_error_body(debug: bool, detail: Seq<u8>) -> Seq<u8> {
    if debug {
        ascii_bytes("Internal Error: "@) + detail
    } else {
        ascii_bytes("Internal Server Error"@)
    }
}

/// The `500` response for an unmapped failure.
pub fn internal_error_response(debug: bool, detail: &[u8]) -> (r: GatewayResponse)
    ensures
        r.status == 500,
        r.body@ == internal_error_body(debug, detail@),
        r.headers@.len() == 0,
{
    if debug {
        let p = "Internal Error: ";
        proof {
            reveal_strlit("Internal Error: ");
            vstd::string::is_ascii_spec_bytes(p);
            assert(p.spec_bytes() =~= ascii_bytes("Internal Error: "@));
        }
        let mut body = vstd::slice::slice_to_vec(p.as_bytes());
        append_bytes(&mut body, detail);
        GatewayResponse::of_status_body(500, body)
    } else {
        let s = "Internal Server Error";
        proof {
            reveal_strlit("Internal Server Error");
            vstd::string::is_ascii_spec_bytes(s);
            assert(s.spec_bytes() =~= ascii_bytes("Internal Server Error"@));
        }
        GatewayResponse::of_status_body(500, vstd::slice::slice_to_vec(s.as_bytes()))
    }
}

/// The process-wide connection counter behind replica selection.  The
/// running gateway holds it in an atomic; each new connection takes the
/// current count and advances it by one, wrapping.
pub struct ReplicaPicker {
    pub counter: u64,
}

impl ReplicaPicker {
    /// A picker that starts at the first replica.
    pub fn new() -> (r: ReplicaPicker)
        ensures
            r.counter == 0,
    {
        ReplicaPicker { counter: 0 }
    }

    /// Picks the replica for the next connection: the count modulo the
    /// pool size, advancing the count.
    pub fn next_index(&mut self, n_replicas: u64) -> (idx: u64)
        requires
            n_replicas >= 1,
        ensures
            idx == old(self).counter % n_replicas,
            idx < n_replicas,
            final(self).counter == (if old(self).counter == u64::MAX {
                0u64
            } else {
                (old(self).counter + 1) as u64
            }),
    {
        let idx = self.counter % n_replicas;
        self.counter = self.counter.wrapping_add(1);
        idx
    }
}

/// The replica a connection count selects from a pool of `n_replicas`.
/// The running gateway reads its atomic counter and selects with this.
pub fn select_replica(counter: u64, n_replicas: u64) -> (idx: u64)
    requires
        n_replicas >= 1,
    ensures
        idx == counter % n_replicas,
        idx < n_replicas,
{
    counter % n_replicas
}

/// How often replica `k` is picked over the connection counts `0..n`.
pub open spec fn count_hits(n: nat, r: nat, k: nat) -> nat
    decreases n,
{
    if n == 0 {
        0
    } else {
        count_hits((n - 1) as nat, r, k) + (if ((n - 1) as nat) % r == k {
            1nat
        } else {
            0nat
        })
    }
}

/// The closed form of [`count_hits`]: the quotient, plus one for the
/// replicas that the remainder still reaches.
pub proof fn lemma_count_hits_formula(n: nat, r: nat, k: nat)
    requires
        1 <= r,
        k < r,
    ensures
        count_hits(n, r, k) == n / r + (if k < n % r {
            1nat
        } else {
            0nat
        }),
    decreases n,
{
    if n == 0 {
        assert(0nat / r == 0 && 0nat % r == 0) by {
            lemma_fundamental_div_mod_converse(0, r as int, 0, 0);
        }
    } else {
        let m = (n - 1) as nat;
        lemma_count_hits_formula(m, r, k);
        lemma_fundamental_div_mod(n as int, r as int);
        let q = n / r;
        let rem = n % r;
        if rem == 0 {
            assert(n as int == q * (r as int) + rem);
            assert(q >= 1) by (nonlinear_arith)
                requires
                    n as int == q * (r as int) + rem,
                    rem == 0,
                    n >= 1,
                    r >= 1,
            ;
            assert(m as int == (q - 1) * (r as int) + (r - 1)) by {
                assert(n as int == q * (r as int));
                assert((q - 1) * (r as int) == q * (r as int) - r) by (nonlinear_arith);
            }
            lemma_fundamental_div_mod_converse(m as int, r as int, q as int - 1, r as int - 1);
            assert(m / r == q - 1 && m % r == r - 1);
        } else {
            assert(m as int == q * (r as int) + (rem - 1)) by {
                assert(n as int == q * (r as int) + rem);
            }
            lemma_fundamental_div_mod_converse(m as int, r as int, q as int, rem as int - 1);
            assert(m / r == q && m % r == rem - 1);
        }
    }
}

/// Round-robin: over `n` sequential connections and `r` replicas, each
/// replica is picked either `n / r` times (the floor) or one more (the
/// ceiling); with the counts dividing evenly, exactly `n / r` times.
pub proof fn lemma_round_robin(n: nat, r: nat, k: nat)
    requires
        1 <= r,
        k < r,
    ensures
        count_hits(n, r, k) == n / r || count_hits(n, r, k) == n / r + 1,
        n % r == 0 ==> count_hits(n, r, k) == n / r,
{
    lemma_count_hits_formula(n, r, k);
}

} // verus!
