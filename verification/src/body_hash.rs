//! The body hasher: a 32-byte digest of a canister response body,
//! decompressing `gzip` or `deflate` bodies first under a hard size cap.
//!
//! The cap is a truncation, not an error: the digest is taken over whatever
//! the capped reader yielded.  A decoder error makes the digest undefined,
//! which the verifier then reports as a validation failure.

use vstd::prelude::*;

use crate::ascii::bytes_eq;
use crate::headers::ascii_bytes;

use sha2::Digest;
use std::io::Read;
use vstd::string::StringSliceAdditionalSpecFns;

verus! {

/// Decompressed bytes are read up to this many; the rest is dropped.
pub const MAX_BYTES_TO_DECOMPRESS: u64 = 10_000_000;

/// The SHA-256 digest of a byte string.
pub uninterp spec fn sha256_of(b: Seq<u8>) -> Seq<u8>;

/// What the capped gzip reader yields for a byte string: at most the cap,
/// or nothing when the stream is not valid gzip.
pub uninterp spec fn gunzip_capped_of(b: Seq<u8>) -> Option<Seq<u8>>;

/// What the capped raw-deflate reader yields for a byte string.
pub uninterp spec fn inflate_capped_of(b: Seq<u8>) -> Option<Seq<u8>>;

/// Relies on `sha2::Sha256`: the digest is 32 bytes and a function of the
/// input alone.
#[verifier::external_body]
fn sha256(b: &[u8]) -> (r: Vec<u8>)
    ensures
        r@ == sha256_of(b@),
        r@.len() == 32,
{
    sha2::Sha256::digest(b).to_vec()
}

/// Relies on `flate2::read::GzDecoder` and `std::io::Read::take`: the
/// outcome is a function of the input bytes alone, and at most the cap is
/// read.
#[verifier::external_body]
fn gunzip_capped(b: &[u8]) -> (r: Option<Vec<u8>>)
    ensures
        (match r {
            Some(d) => Some(d@),
            None => None,
        }) == gunzip_capped_of(b@),
        r matches Some(d) ==> d@.len() <= MAX_BYTES_TO_DECOMPRESS,
{
    let mut out: Vec<u8> = Vec::new();
    let decoder = flate2::read::GzDecoder::new(b);
    match decoder.take(MAX_BYTES_TO_DECOMPRESS).read_to_end(&mut out) {
        Ok(_) => Some(out),
        Err(_) => None,
    }
}

/// Relies on `flate2::read::DeflateDecoder` and `std::io::Read::take`, as
/// the gzip reader above.
#[verifier::external_body]
fn inflate_capped(b: &[u8]) -> (r: Option<Vec<u8>>)
    ensures
        (match r {
            Some(d) => Some(d@),
            None => None,
        }) == inflate_capped_of(b@),
        r matches Some(d) ==> d@.len() <= MAX_BYTES_TO_DECOMPRESS,
{
    let mut out: Vec<u8> = Vec::new();
    let decoder = flate2::read::DeflateDecoder::new(b);
    match decoder.take(MAX_BYTES_TO_DECOMPRESS).read_to_end(&mut out) {
        Ok(_) => Some(out),
        Err(_) => None,
    }
}

/// The `gzip` content encoding.
pub open spec fn gzip_name() -> Seq<u8> {
    ascii_bytes("gzip"@)
}

/// The `deflate` content encoding.
pub open spec fn deflate_name() -> Seq<u8> {
    ascii_bytes("deflate"@)
}

fn gzip_label() -> (r: &'static [u8])
    ensures
        r@ == gzip_name(),
{
    let s = "gzip";
    proof {
        reveal_strlit("gzip");
        vstd::string::is_ascii_spec_bytes(s);
        assert(s.spec_bytes() =~= gzip_name());
    }
    s.as_bytes()
}

fn deflate_label() -> (r: &'static [u8])
    ensures
        r@ == deflate_name(),
{
    let s = "deflate";
    proof {
        reveal_strlit("deflate");
        vstd::string::is_ascii_spec_bytes(s);
        assert(s.spec_bytes() =~= deflate_name());
    }
    s.as_bytes()
}

/// The digest of a body under an optional content encoding.  `None` means a
/// compressed body whose decoder failed.
pub open spec fn body_digest_spec(body: Seq<u8>, encoding: Option<Seq<u8>>) -> Option<Seq<u8>> {
    match encoding {
        Some(e) => if e == gzip_name() {
            match gunzip_capped_of(body) {
                Some(d) => Some(sha256_of(d)),
                None => None,
            }
        } else if e == deflate_name() {
            match inflate_capped_of(body) {
                Some(d) => Some(sha256_of(d)),
                None => None,
            }
        } else {
            Some(sha256_of(body))
        },
        None => Some(sha256_of(body)),
    }
}

/// Hashes a response body, decompressing `gzip` and `deflate` bodies first
/// under the cap; any other or absent encoding hashes the raw bytes.
/// Returns `None` exactly when the decoder rejects the body.
pub fn decode_body(body: &[u8], encoding: Option<&Vec<u8>>) -> (r: Option<Vec<u8>>)
    ensures
        (match r {
            Some(d) => Some(d@),
            None => None,
        }) == body_digest_spec(
            body@,
            match encoding {
                Some(e) => Some(e@),
                None => None,
            },
        ),
        r matches Some(d) ==> d@.len() == 32,
{
    match encoding {
        Some(e) => {
            if bytes_eq(e.as_slice(), gzip_label()) {
                match gunzip_capped(body) {
                    Some(d) => Some(sha256(d.as_slice())),
                    None => None,
                }
            } else if bytes_eq(e.as_slice(), deflate_label()) {
                match inflate_capped(body) {
                    Some(d) => Some(sha256(d.as_slice())),
                    None => None,
                }
            } else {
                Some(sha256(body))
            }
        },
        None => Some(sha256(body)),
    }
}

/// Encoding-aware hashing: when the capped gzip reader yields `d` for
/// `body`, hashing `body` under `gzip` equals hashing `d` under no
/// encoding.
pub proof fn lemma_encoding_aware_hashing_gzip(body: Seq<u8>, d: Seq<u8>)
    requires
        gunzip_capped_of(body) == Some(d),
    ensures
        body_digest_spec(body, Some(gzip_name())) == body_digest_spec(d, None),
{
}

/// Encoding-aware hashing for `deflate` bodies.
pub proof fn lemma_encoding_aware_hashing_deflate(body: Seq<u8>, d: Seq<u8>)
    requires
        inflate_capped_of(body) == Some(d),
    ensures
        body_digest_spec(body, Some(deflate_name())) == body_digest_spec(d, None),
{
    reveal_strlit("deflate");
    reveal_strlit("gzip");
    assert(deflate_name().len() == 7 && gzip_name().len() == 4);
}

/// Decompression cap: whenever the capped reader accepts a body — however
/// large its full decompression would be — the digest is defined, and it is
/// the hash of the at-most-cap bytes the reader yielded.
pub proof fn lemma_decompression_cap(body: Seq<u8>, d: Seq<u8>)
    requires
        gunzip_capped_of(body) == Some(d),
    ensures
        body_digest_spec(body, Some(gzip_name())) == Some(sha256_of(d)),
{
}

} // verus!
