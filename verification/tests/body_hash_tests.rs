use icx_proxy::body_hash::decode_body;

use flate2::write::{DeflateEncoder, GzEncoder};
use flate2::Compression;
use sha2::{Digest, Sha256};
use std::io::Write;

fn gzip(data: &[u8]) -> Vec<u8> {
    let mut enc = GzEncoder::new(Vec::new(), Compression::default());
    enc.write_all(data).unwrap();
    enc.finish().unwrap()
}

fn deflate(data: &[u8]) -> Vec<u8> {
    let mut enc = DeflateEncoder::new(Vec::new(), Compression::default());
    enc.write_all(data).unwrap();
    enc.finish().unwrap()
}

#[test]
fn raw_body_hashes_to_sha256() {
    let digest = decode_body(b"hello", None).unwrap();
    assert_eq!(digest, Sha256::digest(b"hello").to_vec());
    assert_eq!(digest.len(), 32);
}

#[test]
fn unknown_encoding_hashes_raw() {
    let enc = b"br".to_vec();
    let digest = decode_body(b"hello", Some(&enc)).unwrap();
    assert_eq!(digest, Sha256::digest(b"hello").to_vec());
}

#[test]
fn gzip_body_hashes_decompressed() {
    let body = gzip(b"hello");
    let enc = b"gzip".to_vec();
    let digest = decode_body(&body, Some(&enc)).unwrap();
    // Encoding-aware hashing: equal to hashing the plain body without an
    // encoding.
    assert_eq!(digest, decode_body(b"hello", None).unwrap());
    assert_eq!(digest, Sha256::digest(b"hello").to_vec());
}

#[test]
fn deflate_body_hashes_decompressed() {
    let body = deflate(b"hello");
    let enc = b"deflate".to_vec();
    let digest = decode_body(&body, Some(&enc)).unwrap();
    assert_eq!(digest, decode_body(b"hello", None).unwrap());
}

#[test]
fn invalid_gzip_yields_no_digest() {
    let enc = b"gzip".to_vec();
    assert!(decode_body(b"not gzip at all", Some(&enc)).is_none());
}

#[test]
fn oversized_body_hashes_capped_prefix() {
    // 11,000,000 decompressed bytes: the digest is defined and covers the
    // first 10,000,000 bytes only.
    let big = vec![7u8; 11_000_000];
    let body = gzip(&big);
    let enc = b"gzip".to_vec();
    let digest = decode_body(&body, Some(&enc)).unwrap();
    assert_eq!(digest, Sha256::digest(&big[..10_000_000]).to_vec());
    assert_ne!(digest, Sha256::digest(&big).to_vec());
}
