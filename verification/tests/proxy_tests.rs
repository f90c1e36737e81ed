use icx_proxy::message::GatewayRequest;
use icx_proxy::proxy::{create_proxied_request, forward_uri, is_hop_header, remove_hop_headers};

fn hdr(name: &[u8], value: &[u8]) -> (Vec<u8>, Vec<u8>) {
    (name.to_vec(), value.to_vec())
}

#[test]
fn hop_headers_recognized_case_insensitively() {
    for name in [
        "connection",
        "keep-alive",
        "proxy-authenticate",
        "proxy-authorization",
        "te",
        "trailers",
        "transfer-encoding",
        "upgrade",
    ] {
        assert!(is_hop_header(name), "{name}");
        assert!(is_hop_header(&name.to_uppercase()), "{name}");
    }
    assert!(!is_hop_header("content-type"));
    assert!(!is_hop_header("x-forwarded-for"));
}

#[test]
fn remove_hop_headers_keeps_the_rest_in_order() {
    let headers = vec![
        hdr(b"Connection", b"close"),
        hdr(b"X-Custom", b"1"),
        hdr(b"TE", b"trailers"),
        hdr(b"Accept", b"*/*"),
    ];
    let kept = remove_hop_headers(&headers);
    assert_eq!(kept, vec![hdr(b"X-Custom", b"1"), hdr(b"Accept", b"*/*")]);
}

#[test]
fn forward_uri_rebases_path_and_query() {
    let out = forward_uri(b"http://replica:8000/", b"/api/v2/call?x=1").unwrap();
    assert_eq!(out, b"http://replica:8000/api/v2/call?x=1".to_vec());
    assert!(forward_uri(b"not a url at all \x01", b"/").is_none());
}

#[test]
fn proxied_request_strips_hops_and_records_client() {
    let request = GatewayRequest {
        method: b"POST".to_vec(),
        uri: b"/api/v2/call".to_vec(),
        headers: vec![hdr(b"Connection", b"close"), hdr(b"X-Custom", b"1")],
        body: b"payload".to_vec(),
    };
    let out = create_proxied_request(b"203.0.113.7", b"https://upstream:443", request).unwrap();
    assert_eq!(out.uri, b"https://upstream:443/api/v2/call".to_vec());
    assert_eq!(out.method, b"POST".to_vec());
    assert_eq!(out.body, b"payload".to_vec());
    assert_eq!(
        out.headers,
        vec![
            hdr(b"X-Custom", b"1"),
            hdr(b"x-forwarded-for", b"203.0.113.7"),
        ]
    );
}

#[test]
fn forwarded_for_appends_to_existing_value() {
    let request = GatewayRequest {
        method: b"GET".to_vec(),
        uri: b"/api/status".to_vec(),
        headers: vec![hdr(b"X-Forwarded-For", b"198.51.100.1")],
        body: Vec::new(),
    };
    let out = create_proxied_request(b"203.0.113.7", b"http://upstream", request).unwrap();
    assert_eq!(
        out.headers,
        vec![hdr(b"x-forwarded-for", b"198.51.100.1, 203.0.113.7")]
    );
}
