use icx_proxy::headers::{decode_hash_tree, extract_headers_data};

fn hdr(name: &[u8], value: &[u8]) -> (Vec<u8>, Vec<u8>) {
    (name.to_vec(), value.to_vec())
}

#[test]
fn decode_hash_tree_decodes_base64() {
    assert_eq!(decode_hash_tree(Some(b"aGVsbG8=")), Ok(b"hello".to_vec()));
    assert_eq!(decode_hash_tree(Some(b"!!!")), Err(()));
    assert_eq!(decode_hash_tree(None), Err(()));
}

#[test]
fn extracts_certificate_and_tree() {
    let headers = vec![hdr(
        b"IC-Certificate",
        b"certificate=:aGVsbG8=:, tree=:d29ybGQ=:",
    )];
    let data = extract_headers_data(&headers);
    assert_eq!(data.certificate, Some(Ok(b"hello".to_vec())));
    assert_eq!(data.tree, Some(Ok(b"world".to_vec())));
    assert_eq!(data.encoding, None);
}

#[test]
fn header_name_is_case_insensitive() {
    let headers = vec![hdr(b"ic-certificate", b"certificate=:aGVsbG8=:")];
    let data = extract_headers_data(&headers);
    assert_eq!(data.certificate, Some(Ok(b"hello".to_vec())));
}

#[test]
fn content_encoding_is_trimmed_verbatim() {
    let headers = vec![hdr(b"Content-Encoding", b"  gzip ")];
    let data = extract_headers_data(&headers);
    assert_eq!(data.encoding, Some(b"gzip".to_vec()));
    // A later header replaces an earlier value.
    let headers = vec![hdr(b"Content-Encoding", b"gzip"), hdr(b"content-encoding", b"GZIP")];
    let data = extract_headers_data(&headers);
    assert_eq!(data.encoding, Some(b"GZIP".to_vec()));
}

#[test]
fn duplicate_certificate_first_success_wins() {
    // `aGVsbG8=` decodes to `hello`, `d29ybGQ=` to `world`.
    let headers = vec![hdr(
        b"IC-Certificate",
        b"certificate=:aGVsbG8=:, certificate=:d29ybGQ=:",
    )];
    let data = extract_headers_data(&headers);
    assert_eq!(data.certificate, Some(Ok(b"hello".to_vec())));
}

#[test]
fn duplicate_certificate_error_is_replaced() {
    let headers = vec![hdr(
        b"IC-Certificate",
        b"certificate=:!!!:, certificate=:d29ybGQ=:",
    )];
    let data = extract_headers_data(&headers);
    assert_eq!(data.certificate, Some(Ok(b"world".to_vec())));
}

#[test]
fn duplicate_certificate_later_error_ignored() {
    let headers = vec![hdr(
        b"IC-Certificate",
        b"certificate=:aGVsbG8=:, certificate=:!!!:",
    )];
    let data = extract_headers_data(&headers);
    assert_eq!(data.certificate, Some(Ok(b"hello".to_vec())));
}

#[test]
fn unrelated_fields_and_headers_ignored() {
    let headers = vec![
        hdr(b"X-Other", b"certificate=:aGVsbG8=:"),
        hdr(b"IC-Certificate", b"other=:aGVsbG8=:, not a field"),
    ];
    let data = extract_headers_data(&headers);
    assert_eq!(data.certificate, None);
    assert_eq!(data.tree, None);
}

#[test]
fn base64_padding_inside_field_shape() {
    // The payload ends with `=` padding; the name still stops at the
    // first `=:` of the field.
    let headers = vec![hdr(b"IC-Certificate", b"tree=:aGk=:")];
    let data = extract_headers_data(&headers);
    assert_eq!(data.tree, Some(Ok(b"hi".to_vec())));
}
