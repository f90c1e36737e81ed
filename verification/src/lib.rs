//! An HTTP gateway library for content served by canisters on a replicated
//! compute platform.
//!
//! The crate models the request-processing pipeline of such a gateway:
//! resolving which canister a request addresses, extracting certification
//! headers from a canister response, hashing the (possibly compressed)
//! response body, checking the certification decision matrix, assembling
//! streamed bodies under a hard callback budget, and rewriting requests for
//! the reverse-proxy paths.  All decision logic is verified; calls into
//! outside crates (hashing, decompression, base64, URI parsing, certificate
//! cryptography) stand behind small trusted wrappers whose contracts name
//! what the call returns.

pub mod ascii;
pub mod body_hash;
pub mod certification;
pub mod message;
pub mod proxy;
pub mod resolver;
pub mod streaming;
pub mod dispatch;
pub mod forward;
pub mod headers;
