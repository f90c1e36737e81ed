use icx_proxy::dispatch::{
    classify_request, internal_error_response, not_found, unable_to_fetch_root_key,
    ReplicaPicker, RouteClass,
};

#[test]
fn path_classification() {
    assert!(matches!(classify_request(b"/api/v2/call", true), RouteClass::Api));
    assert!(matches!(classify_request(b"/api/v2/call", false), RouteClass::Api));
    assert!(matches!(classify_request(b"/_/dashboard", true), RouteClass::Proxy));
    assert!(matches!(
        classify_request(b"/_/dashboard", false),
        RouteClass::ProxyNotConfigured
    ));
    assert!(matches!(classify_request(b"/_/raw/page", true), RouteClass::Canister));
    assert!(matches!(classify_request(b"/index.html", true), RouteClass::Canister));
    assert!(matches!(classify_request(b"/apix", true), RouteClass::Canister));
}

#[test]
fn fixed_responses() {
    let nf = not_found();
    assert_eq!(nf.status, 404);
    assert_eq!(nf.body, b"Not found".to_vec());
    let rk = unable_to_fetch_root_key();
    assert_eq!(rk.status, 500);
    assert_eq!(rk.body, b"Unable to fetch root key".to_vec());
}

#[test]
fn internal_error_detail_only_in_debug() {
    let masked = internal_error_response(false, b"secret detail");
    assert_eq!(masked.status, 500);
    assert_eq!(masked.body, b"Internal Server Error".to_vec());
    let open = internal_error_response(true, b"boom");
    assert_eq!(open.body, b"Internal Error: boom".to_vec());
}

#[test]
fn round_robin_is_balanced() {
    let mut picker = ReplicaPicker::new();
    let mut counts = [0u32; 3];
    for _ in 0..7 {
        let idx = picker.next_index(3) as usize;
        counts[idx] += 1;
    }
    // Seven connections over three replicas: each chosen ⌊7/3⌋ or ⌈7/3⌉
    // times, and the pattern starts at the first replica.
    assert_eq!(counts, [3, 2, 2]);
    let mut picker = ReplicaPicker::new();
    let picks: Vec<u64> = (0..6).map(|_| picker.next_index(3)).collect();
    assert_eq!(picks, vec![0, 1, 2, 0, 1, 2]);
}
