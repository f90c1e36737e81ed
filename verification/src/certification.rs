//! The certification verifier: decides whether a canister response body is
//! committed to by a certificate the platform root key signed.
//!
//! The decision matrix over the extracted headers is exact: no certification
//! data at all is accepted (uncertified content is permitted), partial or
//! undecodable data is always rejected, and only a well-decoded pair is
//! handed to the cryptographic check.  The cryptographic steps — CBOR
//! parsing, signature verification, tree lookups — run in the outside agent
//! library behind trusted wrappers; the comparison logic between their
//! outcomes is verified in [`certified_outcome`].

use vstd::prelude::*;

use crate::ascii::bytes_eq;
use crate::body_hash::{body_digest_spec, decode_body};
use crate::headers::{ascii_bytes, HeadersData};

use vstd::string::StringSliceAdditionalSpecFns;

verus! {

/// A parsed certificate of the agent library, carried opaquely.  The
/// declaration of `ic_certification::certificate::Certificate` itself is
/// refused (its storage parameter is bound by a trait Verus has no
/// specification for), so the value lives in a hidden field instead.
#[verifier::external_body]
pub struct ParsedCertificate {
    inner: ic_certification::Certificate,
}

/// A parsed hash tree of the agent library, carried opaquely, as
/// [`ParsedCertificate`] is.
#[verifier::external_body]
pub struct ParsedHashTree {
    inner: ic_certification::HashTree,
}

/// The agent that holds the platform root key.
#[verifier::external_type_specification]
#[verifier::external_body]
pub struct ExAgent(ic_agent::Agent);

/// What decoding these bytes as a certificate reports when it fails: the
/// decoder's error text, or nothing when the bytes decode.
pub uninterp spec fn cert_parse_err(b: Seq<u8>) -> Option<Seq<u8>>;

/// What decoding these bytes as a hash tree reports when it fails.
pub uninterp spec fn tree_parse_err(b: Seq<u8>) -> Option<Seq<u8>>;

/// These bytes decode as a certificate.
pub open spec fn cert_decodes(b: Seq<u8>) -> bool {
    cert_parse_err(b) is None
}

/// These bytes decode as a hash tree.
pub open spec fn tree_decodes(b: Seq<u8>) -> bool {
    tree_parse_err(b) is None
}

/// Relies on `serde_cbor::from_slice`: decoding succeeds or fails — with
/// its error text — as a function of the input bytes alone.
#[verifier::external_body]
fn parse_certificate(b: &[u8]) -> (r: Result<ParsedCertificate, Vec<u8>>)
    ensures
        r is Ok <==> cert_parse_err(b@) is None,
        (r matches Err(e) ==> Some(e@) == cert_parse_err(b@)),
{
    match serde_cbor::from_slice(b) {
        Ok(inner) => Ok(ParsedCertificate { inner }),
        Err(e) => Err(e.to_string().into_bytes()),
    }
}

/// Relies on `serde_cbor::from_slice`, as [`parse_certificate`].
#[verifier::external_body]
fn parse_hash_tree(b: &[u8]) -> (r: Result<ParsedHashTree, Vec<u8>>)
    ensures
        r is Ok <==> tree_parse_err(b@) is None,
        (r matches Err(e) ==> Some(e@) == tree_parse_err(b@)),
{
    match serde_cbor::from_slice(b) {
        Ok(inner) => Ok(ParsedHashTree { inner }),
        Err(e) => Err(e.to_string().into_bytes()),
    }
}

/// Relies on `ic_agent::Agent::verify`: checks the certificate signature
/// against the agent's root key and its delegation for the canister.  The
/// outcome depends on the agent's key material, so nothing is claimed of
/// it.
#[verifier::external_body]
fn agent_verify(agent: &ic_agent::Agent, cert: &ParsedCertificate, canister: &[u8])
    -> bool {
    match ic_agent::export::Principal::try_from_slice(canister) {
        Ok(p) => agent.verify(&cert.inner, p).is_ok(),
        Err(_) => false,
    }
}

/// Relies on `ic_agent::lookup_value` on a three-label path: yields the
/// committed value when the path is present in the certificate's tree.
#[verifier::external_body]
fn cert_lookup(
    cert: &ParsedCertificate,
    label0: &[u8],
    label1: &[u8],
    label2: &[u8],
) -> Option<Vec<u8>> {
    let path: [&[u8]; 3] = [label0, label1, label2];
    match ic_agent::lookup_value(&cert.inner, path) {
        Ok(v) => Some(v.to_vec()),
        Err(_) => None,
    }
}

/// Relies on `HashTree::digest`: the root digest is 32 bytes.
#[verifier::external_body]
fn tree_digest(tree: &ParsedHashTree) -> (r: Vec<u8>)
    ensures
        r@.len() == 32,
{
    tree.inner.digest().to_vec()
}

/// Relies on `HashTree::lookup_path` on a two-label path: a found leaf is
/// returned, any other lookup outcome is `None`.
#[verifier::external_body]
fn tree_lookup(tree: &ParsedHashTree, label0: &[u8], label1: &[u8]) -> Option<
    Vec<u8>,
> {
    let path: [&[u8]; 2] = [label0, label1];
    match tree.inner.lookup_path(path) {
        ic_certification::LookupResult::Found(v) => Some(v.to_vec()),
        _ => None,
    }
}

/// The certificate and tree bytes pulled out of the response headers.
pub struct Certificates {
    pub certificate: Vec<u8>,
    pub tree: Vec<u8>,
}

/// The verified comparison between the cryptographic outcomes: the body is
/// certified when the certificate commits to the tree's root digest
/// (`witness`) and the leaf found for the request path — or, failing that,
/// for the fallback path — equals the body digest.
pub open spec fn certified_outcome_spec(
    witness: Option<Seq<u8>>,
    digest: Seq<u8>,
    leaf: Option<Seq<u8>>,
    fallback: Option<Seq<u8>>,
    body_sha: Seq<u8>,
) -> bool {
    match witness {
        None => false,
        Some(w) => w == digest && (match leaf {
            Some(v) => v == body_sha,
            None => match fallback {
                Some(v) => v == body_sha,
                None => false,
            },
        }),
    }
}

/// Decides certification from the outcomes of the certificate lookup, the
/// tree's root digest, and the two tree lookups.
pub fn certified_outcome(
    witness: Option<&Vec<u8>>,
    digest: &Vec<u8>,
    leaf: Option<&Vec<u8>>,
    fallback: Option<&Vec<u8>>,
    body_sha: &[u8],
) -> (r: bool)
    ensures
        r == certified_outcome_spec(
            match witness {
                Some(w) => Some(w@),
                None => None,
            },
            digest@,
            match leaf {
                Some(v) => Some(v@),
                None => None,
            },
            match fallback {
                Some(v) => Some(v@),
                None => None,
            },
            body_sha@,
        ),
{
    match witness {
        None => false,
        Some(w) => {
            if !bytes_eq(w.as_slice(), digest.as_slice()) {
                return false;
            }
            match leaf {
                Some(v) => bytes_eq(v.as_slice(), body_sha),
                None => match fallback {
                    Some(v) => bytes_eq(v.as_slice(), body_sha),
                    None => false,
                },
            }
        },
    }
}

/// SPA fallback: with the request path absent from the tree, verification
/// succeeds exactly when the certificate commits to the tree's root digest
/// and the fallback leaf equals the body digest.
pub proof fn lemma_spa_fallback(
    witness: Option<Seq<u8>>,
    digest: Seq<u8>,
    fallback: Option<Seq<u8>>,
    body_sha: Seq<u8>,
)
    ensures
        certified_outcome_spec(witness, digest, None, fallback, body_sha) == (witness == Some(
            digest,
        ) && fallback == Some(body_sha)),
{
}

/// The certificate path label naming the canister subtree.
pub open spec fn canister_path_label() -> Seq<u8> {
    ascii_bytes("canister"@)
}

/// The certificate path label naming the canister's certified data.
pub open spec fn certified_data_path_label() -> Seq<u8> {
    ascii_bytes("certified_data"@)
}

fn canister_label() -> (r: &'static [u8])
    ensures
        r@ == canister_path_label(),
{
    let s = "canister";
    proof {
        reveal_strlit("canister");
        vstd::string::is_ascii_spec_bytes(s);
        assert(s.spec_bytes() =~= canister_path_label());
    }
    s.as_bytes()
}

fn certified_data_label() -> (r: &'static [u8])
    ensures
        r@ == certified_data_path_label(),
{
    let s = "certified_data";
    proof {
        reveal_strlit("certified_data");
        vstd::string::is_ascii_spec_bytes(s);
        assert(s.spec_bytes() =~= certified_data_path_label());
    }
    s.as_bytes()
}

/// The tree path label under which canister assets are certified.
pub open spec fn http_assets_label_spec() -> Seq<u8> {
    ascii_bytes("http_assets"@)
}

/// The fallback asset path for single-page applications.
pub open spec fn index_fallback_path() -> Seq<u8> {
    ascii_bytes("/index.html"@)
}

fn http_assets_label() -> (r: &'static [u8])
    ensures
        r@ == http_assets_label_spec(),
{
    let s = "http_assets";
    proof {
        reveal_strlit("http_assets");
        vstd::string::is_ascii_spec_bytes(s);
        assert(s.spec_bytes() =~= http_assets_label_spec());
    }
    s.as_bytes()
}

fn index_fallback_label() -> (r: &'static [u8])
    ensures
        r@ == index_fallback_path(),
{
    let s = "/index.html";
    proof {
        reveal_strlit("/index.html");
        vstd::string::is_ascii_spec_bytes(s);
        assert(s.spec_bytes() =~= index_fallback_path());
    }
    s.as_bytes()
}

/// Runs the verification algorithm on a decoded certificate and tree.
///
/// `Err` — carrying the decoder's error text, the certificate's first —
/// exactly when the certificate or tree bytes do not parse; a parsed pair
/// yields `Ok(b)`, where `b` is the outcome of the signature check and the
/// verified comparison [`certified_outcome`]: the certificate must pass
/// the agent's check, commit to the tree's root digest, and the leaf at
/// `["http_assets", <uri-path>]` — or at the fallback
/// `["http_assets", "/index.html"]` when the path is absent — must equal
/// the body digest.
pub fn validate_body(
    certificates: &Certificates,
    canister_id: &[u8],
    agent: &ic_agent::Agent,
    uri_path: &[u8],
    body_sha: &[u8],
) -> (r: Result<bool, Vec<u8>>)
    ensures
        r is Err <==> !(cert_decodes(certificates.certificate@) && tree_decodes(
            certificates.tree@,
        )),
        (r matches Err(e) ==> (match cert_parse_err(certificates.certificate@) {
            Some(err) => e@ == err,
            None => Some(e@) == tree_parse_err(certificates.tree@),
        })),
{
    let cert = match parse_certificate(certificates.certificate.as_slice()) {
        Ok(c) => c,
        Err(e) => {
            return Err(e);
        },
    };
    let tree = match parse_hash_tree(certificates.tree.as_slice()) {
        Ok(t) => t,
        Err(e) => {
            return Err(e);
        },
    };
    if !agent_verify(agent, &cert, canister_id) {
        return Ok(false);
    }
    let witness = cert_lookup(&cert, canister_label(), canister_id, certified_data_label());
    let digest = tree_digest(&tree);
    let leaf = tree_lookup(&tree, http_assets_label(), uri_path);
    let fallback = if leaf.is_none() {
        tree_lookup(&tree, http_assets_label(), index_fallback_label())
    } else {
        None
    };
    Ok(
        certified_outcome(
            witness.as_ref(),
            &digest,
            leaf.as_ref(),
            fallback.as_ref(),
            body_sha,
        ),
    )
}

/// What the decision matrix says for a pair of extracted fields.
pub enum MatrixDecision {
    /// No certification data: uncertified content is permitted.
    Accept,
    /// Partial or undecodable certification data: always rejected.
    Reject,
    /// A well-decoded pair: run the verification algorithm.
    Verify,
}

/// The decision matrix of the verifier over the extracted header fields.
pub open spec fn certification_matrix(
    cert: Option<Result<Seq<u8>, ()>>,
    tree: Option<Result<Seq<u8>, ()>>,
) -> MatrixDecision {
    match (cert, tree) {
        (None, None) => MatrixDecision::Accept,
        (Some(Ok(c)), Some(Ok(t))) => MatrixDecision::Verify,
        _ => MatrixDecision::Reject,
    }
}

/// Verification symmetry: when exactly one of certificate and tree is
/// present — whatever either holds, decoded or not — the matrix rejects.
pub proof fn lemma_verification_symmetry(
    cert: Option<Result<Seq<u8>, ()>>,
    tree: Option<Result<Seq<u8>, ()>>,
)
    requires
        (cert is Some) != (tree is Some),
    ensures
        certification_matrix(cert, tree) is Reject,
{
}

/// The fixed rejection message of the verifier.
pub open spec fn verification_failed_msg() -> Seq<u8> {
    ascii_bytes("Body does not pass verification"@)
}

/// The prefix of the message when certification data does not parse.
pub open spec fn certificate_malformed_prefix() -> Seq<u8> {
    ascii_bytes("Certificate validation failed: "@)
}

/// The full malformed-certificate message for one decoder error.
pub open spec fn malformed_message(err: Seq<u8>) -> Seq<u8> {
    certificate_malformed_prefix() + err
}

/// The rejection body of the certified case: the certificate's decoder
/// error first, else the tree's, else the fixed verification failure.
pub open spec fn certified_rejection(cert: Seq<u8>, tree: Seq<u8>, m: Seq<u8>) -> bool {
    match cert_parse_err(cert) {
        Some(e) => m == malformed_message(e),
        None => match tree_parse_err(tree) {
            Some(e) => m == malformed_message(e),
            None => m == verification_failed_msg(),
        },
    }
}

fn verification_failed_label() -> (r: &'static [u8])
    ensures
        r@ == verification_failed_msg(),
{
    let s = "Body does not pass verification";
    proof {
        reveal_strlit("Body does not pass verification");
        vstd::string::is_ascii_spec_bytes(s);
        assert(s.spec_bytes() =~= verification_failed_msg());
    }
    s.as_bytes()
}

fn certificate_malformed_prefix_label() -> (r: &'static [u8])
    ensures
        r@ == certificate_malformed_prefix(),
{
    let s = "Certificate validation failed: ";
    proof {
        reveal_strlit("Certificate validation failed: ");
        vstd::string::is_ascii_spec_bytes(s);
        assert(s.spec_bytes() =~= certificate_malformed_prefix());
    }
    s.as_bytes()
}

/// Maps the verification outcome to the verifier's answer: a certified
/// body passes, an uncertified one is the fixed rejection, an unparseable
/// pair reports the decoder's error.
pub fn certification_response(outcome: Result<bool, Vec<u8>>) -> (r: Result<(), Vec<u8>>)
    ensures
        (outcome matches Ok(b) && b) <==> r is Ok,
        (outcome matches Ok(b) && !b) ==> (r matches Err(m) && m@ == verification_failed_msg()),
        (outcome matches Err(e) ==> (r matches Err(m) && m@ == malformed_message(e@))),
{
    match outcome {
        Ok(true) => Ok(()),
        Ok(false) => Err(vstd::slice::slice_to_vec(verification_failed_label())),
        Err(e) => {
            let mut m = vstd::slice::slice_to_vec(certificate_malformed_prefix_label());
            crate::ascii::append_bytes(&mut m, e.as_slice());
            Err(m)
        },
    }
}

/// Checks one response body against the certification headers.
///
/// The body digest is computed first ([`decode_body`]); a body whose
/// decoder fails is treated as failing verification.  Then the decision
/// matrix applies: no data accepts, partial or undecodable data rejects
/// with the fixed message, and a well-decoded pair runs [`validate_body`]
/// and maps its outcome through [`certification_response`]: `true` passes,
/// `false` is the fixed rejection, an unparseable pair reports the
/// decoder's error.
pub fn validate(
    headers_data: &HeadersData,
    canister_id: &[u8],
    agent: &ic_agent::Agent,
    uri_path: &[u8],
    response_body: &[u8],
) -> (r: Result<(), Vec<u8>>)
    ensures
        body_digest_spec(response_body@, headers_data@.encoding) is None ==> (r matches Err(m)
            && m@ == verification_failed_msg()),
        body_digest_spec(response_body@, headers_data@.encoding) is Some ==> {
            &&& certification_matrix(headers_data@.certificate, headers_data@.tree) is Accept
                ==> r is Ok
            &&& certification_matrix(headers_data@.certificate, headers_data@.tree) is Reject
                ==> (r matches Err(m) && m@ == verification_failed_msg())
            &&& (match (headers_data@.certificate, headers_data@.tree) {
                (Some(Ok(c)), Some(Ok(t))) => {
                    &&& (r matches Err(m) ==> certified_rejection(c, t, m@))
                    &&& (!(cert_decodes(c) && tree_decodes(t)) ==> r is Err)
                },
                _ => true,
            })
        },
{
    let body_sha = match decode_body(response_body, headers_data.encoding.as_ref()) {
        Some(d) => d,
        None => {
            return Err(vstd::slice::slice_to_vec(verification_failed_label()));
        },
    };
    match (&headers_data.certificate, &headers_data.tree) {
        (Some(Ok(certificate)), Some(Ok(tree))) => {
            let certificates = Certificates {
                certificate: vstd::slice::slice_to_vec(certificate.as_slice()),
                tree: vstd::slice::slice_to_vec(tree.as_slice()),
            };
            let outcome = validate_body(
                &certificates,
                canister_id,
                agent,
                uri_path,
                body_sha.as_slice(),
            );
            certification_response(outcome)
        },
        (None, None) => Ok(()),
        _ => Err(vstd::slice::slice_to_vec(verification_failed_label())),
    }
}

} // verus!
