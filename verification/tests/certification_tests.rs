use ic_agent::export::Principal;
use icx_proxy::certification::{
    certification_response, certified_outcome, validate, validate_body, Certificates,
};
use icx_proxy::headers::HeadersData;
use sha2::{Digest, Sha256};

const ID_A: &str = "ryjl3-tyaaa-aaaaa-aaaba-cai";

fn agent() -> ic_agent::Agent {
    ic_agent::Agent::builder().with_url("http://127.0.0.1:4943").build().unwrap()
}

fn canister_bytes() -> Vec<u8> {
    Principal::from_text(ID_A).unwrap().as_slice().to_vec()
}

#[test]
fn outcome_requires_witness() {
    let digest = vec![1u8; 32];
    let sha = Sha256::digest(b"hello").to_vec();
    assert!(!certified_outcome(None, &digest, Some(&sha), None, &sha));
}

#[test]
fn outcome_requires_witness_to_match_tree_digest() {
    let digest = vec![1u8; 32];
    let wrong_witness = vec![2u8; 32];
    let sha = Sha256::digest(b"hello").to_vec();
    assert!(!certified_outcome(Some(&wrong_witness), &digest, Some(&sha), None, &sha));
}

#[test]
fn outcome_accepts_matching_leaf() {
    let digest = vec![1u8; 32];
    let sha = Sha256::digest(b"hello").to_vec();
    assert!(certified_outcome(Some(&digest), &digest, Some(&sha), None, &sha));
}

#[test]
fn outcome_rejects_tampered_body() {
    let digest = vec![1u8; 32];
    let leaf = Sha256::digest(b"hello").to_vec();
    let tampered = Sha256::digest(b"tampered").to_vec();
    assert!(!certified_outcome(Some(&digest), &digest, Some(&leaf), None, &tampered));
}

#[test]
fn outcome_falls_back_to_index_leaf() {
    // The request path is absent from the tree; verification succeeds
    // exactly when the digest equals the fallback leaf.
    let digest = vec![1u8; 32];
    let sha = Sha256::digest(b"hello").to_vec();
    let other = Sha256::digest(b"other").to_vec();
    assert!(certified_outcome(Some(&digest), &digest, None, Some(&sha), &sha));
    assert!(!certified_outcome(Some(&digest), &digest, None, Some(&other), &sha));
    assert!(!certified_outcome(Some(&digest), &digest, None, None, &sha));
}

fn headers_data(
    certificate: Option<Result<Vec<u8>, ()>>,
    tree: Option<Result<Vec<u8>, ()>>,
) -> HeadersData {
    HeadersData { certificate, tree, encoding: None }
}

#[test]
fn no_certification_data_is_accepted() {
    let hd = headers_data(None, None);
    assert!(validate(&hd, &canister_bytes(), &agent(), b"/index.html", b"hello").is_ok());
}

#[test]
fn partial_certification_data_is_rejected() {
    let err = b"Body does not pass verification".to_vec();
    let hd = headers_data(Some(Ok(b"x".to_vec())), None);
    assert_eq!(
        validate(&hd, &canister_bytes(), &agent(), b"/", b"hello"),
        Err(err.clone())
    );
    let hd = headers_data(None, Some(Ok(b"x".to_vec())));
    assert_eq!(
        validate(&hd, &canister_bytes(), &agent(), b"/", b"hello"),
        Err(err.clone())
    );
    let hd = headers_data(Some(Err(())), Some(Ok(b"x".to_vec())));
    assert_eq!(
        validate(&hd, &canister_bytes(), &agent(), b"/", b"hello"),
        Err(err)
    );
}

#[test]
fn undecodable_pair_is_a_malformed_certificate() {
    let hd = headers_data(Some(Ok(b"junk".to_vec())), Some(Ok(b"junk".to_vec())));
    let err = validate(&hd, &canister_bytes(), &agent(), b"/", b"hello").unwrap_err();
    // The decoder's own error text follows the fixed prefix.
    assert!(err.starts_with(b"Certificate validation failed: "));
    assert!(err.len() > b"Certificate validation failed: ".len());
}

#[test]
fn validate_body_rejects_unparseable_bytes() {
    let certs = Certificates { certificate: b"junk".to_vec(), tree: b"junk".to_vec() };
    let sha = Sha256::digest(b"hello").to_vec();
    let err = validate_body(&certs, &canister_bytes(), &agent(), b"/", &sha).unwrap_err();
    assert!(!err.is_empty());
}

#[test]
fn certification_outcome_maps_to_the_response() {
    assert_eq!(certification_response(Ok(true)), Ok(()));
    assert_eq!(
        certification_response(Ok(false)),
        Err(b"Body does not pass verification".to_vec())
    );
    assert_eq!(
        certification_response(Err(b"bad tag".to_vec())),
        Err(b"Certificate validation failed: bad tag".to_vec())
    );
}

#[test]
fn bad_gzip_body_fails_verification() {
    let hd = HeadersData {
        certificate: None,
        tree: None,
        encoding: Some(b"gzip".to_vec()),
    };
    assert_eq!(
        validate(&hd, &canister_bytes(), &agent(), b"/", b"not gzip"),
        Err(b"Body does not pass verification".to_vec())
    );
}
