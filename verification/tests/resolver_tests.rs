use ic_agent::export::Principal;
use icx_proxy::forward::{forward_start, ForwardAction};
use icx_proxy::message::GatewayRequest;
use icx_proxy::resolver::{resolve_canister_id, resolve_canister_id_from_uri, DnsConfig};

const ID_A: &str = "ryjl3-tyaaa-aaaaa-aaaba-cai";
const ID_B: &str = "rrkah-fqaaa-aaaaa-aaaaq-cai";

fn principal_bytes(text: &str) -> Vec<u8> {
    Principal::from_text(text).unwrap().as_slice().to_vec()
}

fn request(headers: Vec<(Vec<u8>, Vec<u8>)>, uri: &[u8]) -> GatewayRequest {
    GatewayRequest { method: b"GET".to_vec(), uri: uri.to_vec(), headers, body: Vec::new() }
}

fn config(aliases: &[&str], suffixes: &[&str]) -> DnsConfig {
    let aliases: Vec<Vec<u8>> = aliases.iter().map(|a| a.as_bytes().to_vec()).collect();
    let suffixes: Vec<Vec<u8>> = suffixes.iter().map(|s| s.as_bytes().to_vec()).collect();
    DnsConfig::new(&aliases, &suffixes).unwrap()
}

#[test]
fn alias_resolves_host() {
    let cfg = config(&[&format!("app.example.com:{ID_A}")], &[]);
    let req = request(vec![(b"Host".to_vec(), b"app.example.com".to_vec())], b"/");
    let id = resolve_canister_id(&req, &cfg).unwrap();
    assert_eq!(id.bytes, principal_bytes(ID_A));
}

#[test]
fn alias_ignores_host_case_and_port() {
    let cfg = config(&[&format!("app.example.com:{ID_A}")], &[]);
    let req = request(vec![(b"HOST".to_vec(), b"App.Example.Com:8080".to_vec())], b"/");
    let id = resolve_canister_id(&req, &cfg).unwrap();
    assert_eq!(id.bytes, principal_bytes(ID_A));
}

#[test]
fn suffix_parses_subdomain() {
    let cfg = config(&[], &["example.com"]);
    let host = format!("{ID_A}.example.com");
    let req = request(vec![(b"Host".to_vec(), host.into_bytes())], b"/");
    let id = resolve_canister_id(&req, &cfg).unwrap();
    assert_eq!(id.bytes, principal_bytes(ID_A));
}

#[test]
fn alias_wins_over_suffix() {
    // Both the alias and the suffix rule match this host; the alias must
    // win, so the resolved canister is the alias target, not the
    // subdomain's own id.
    let host = format!("{ID_A}.localhost");
    let cfg = config(&[&format!("{host}:{ID_B}")], &["localhost"]);
    let req = request(vec![(b"Host".to_vec(), host.clone().into_bytes())], b"/");
    let id = resolve_canister_id(&req, &cfg).unwrap();
    assert_eq!(id.bytes, principal_bytes(ID_B));
}

#[test]
fn localhost_fallback_without_config() {
    let cfg = config(&[], &[]);
    let host = format!("{ID_A}.localhost");
    let req = request(vec![(b"Host".to_vec(), host.into_bytes())], b"/");
    let id = resolve_canister_id(&req, &cfg).unwrap();
    assert_eq!(id.bytes, principal_bytes(ID_A));
}

#[test]
fn leading_label_fallback() {
    let cfg = config(&[], &[]);
    let host = format!("{ID_A}.ic0.app");
    let req = request(vec![(b"Host".to_vec(), host.into_bytes())], b"/");
    let id = resolve_canister_id(&req, &cfg).unwrap();
    assert_eq!(id.bytes, principal_bytes(ID_A));
}

#[test]
fn query_parameter_resolves() {
    let uri = format!("/page?x=1&canisterId={ID_B}");
    assert_eq!(
        resolve_canister_id_from_uri(uri.as_bytes()).unwrap().bytes,
        principal_bytes(ID_B)
    );
    assert!(resolve_canister_id_from_uri(b"/page?x=1").is_none());
    assert!(resolve_canister_id_from_uri(b"/page?canisterId=garbage").is_none());
}

#[test]
fn query_parameter_is_percent_decoded() {
    // `%2D` decodes to `-` and `+` to a space; the decoded first value is
    // what gets parsed.
    let uri = format!("/p?canisterId={}", ID_A.replace('-', "%2D"));
    assert_eq!(
        resolve_canister_id_from_uri(uri.as_bytes()).unwrap().bytes,
        principal_bytes(ID_A)
    );
    let spaced = format!("/p?canisterId=+{ID_A}");
    assert!(resolve_canister_id_from_uri(spaced.as_bytes()).is_none());
}

#[test]
fn referer_is_last_resort() {
    let cfg = config(&[], &[]);
    let referer = format!("http://localhost:8000/page?canisterId={ID_A}");
    let req = request(vec![(b"Referer".to_vec(), referer.into_bytes())], b"/");
    let id = resolve_canister_id(&req, &cfg).unwrap();
    assert_eq!(id.bytes, principal_bytes(ID_A));
}

#[test]
fn resolution_is_deterministic() {
    let cfg = config(&[&format!("app.example.com:{ID_A}")], &["localhost"]);
    let req = request(vec![(b"Host".to_vec(), b"app.example.com".to_vec())], b"/");
    let first = resolve_canister_id(&req, &cfg).map(|c| c.bytes);
    let second = resolve_canister_id(&req, &cfg).map(|c| c.bytes);
    assert_eq!(first, second);
}

#[test]
fn unresolvable_request_gets_fixed_bad_request() {
    let cfg = config(&[], &[]);
    let req = request(vec![], b"/");
    match forward_start(&req, &cfg) {
        ForwardAction::Respond(g) => {
            assert_eq!(g.status, 400);
            assert_eq!(g.body, b"Could not find a canister id to forward to.".to_vec());
        }
        ForwardAction::Call(_) => panic!("expected a direct response"),
    }
}

#[test]
fn duplicate_alias_is_fatal() {
    let aliases = vec![
        format!("a.com:{ID_A}").into_bytes(),
        format!("a.com:{ID_B}").into_bytes(),
    ];
    assert!(DnsConfig::new(&aliases, &Vec::new()).is_err());
    let bad = vec![b"no-colon-here".to_vec()];
    assert!(DnsConfig::new(&bad, &Vec::new()).is_err());
    let bad_id = vec![b"a.com:not-a-canister".to_vec()];
    assert!(DnsConfig::new(&bad_id, &Vec::new()).is_err());
}
