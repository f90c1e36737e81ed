use icx_proxy::ascii::{
    bytes_eq, eq_ignore_case, split_on, starts_with_bytes, to_lower, trim, u64_to_dec,
};

#[test]
fn lower_maps_ascii_only() {
    assert_eq!(to_lower(b"AbC-Z9"), b"abc-z9".to_vec());
    assert_eq!(to_lower(b""), Vec::<u8>::new());
}

#[test]
fn eq_ignore_case_works() {
    assert!(eq_ignore_case(b"IC-Certificate", b"ic-certificate"));
    assert!(!eq_ignore_case(b"ic-cert", b"ic-certificate"));
    assert!(bytes_eq(b"abc", b"abc"));
    assert!(!bytes_eq(b"abc", b"abd"));
}

#[test]
fn split_on_matches_str_split() {
    let parts = split_on(b"a.bb..c", b'.');
    let expect: Vec<Vec<u8>> = vec![b"a".to_vec(), b"bb".to_vec(), b"".to_vec(), b"c".to_vec()];
    assert_eq!(parts, expect);
    let empty = split_on(b"", b'.');
    assert_eq!(empty, vec![Vec::<u8>::new()]);
}

#[test]
fn trim_strips_ascii_whitespace() {
    assert_eq!(trim(b"  hi \t"), b"hi".to_vec());
    assert_eq!(trim(b"\r\n"), Vec::<u8>::new());
    assert_eq!(trim(b"x"), b"x".to_vec());
}

#[test]
fn decimal_rendering_exact() {
    assert_eq!(u64_to_dec(0), b"0".to_vec());
    assert_eq!(u64_to_dec(3), b"3".to_vec());
    assert_eq!(u64_to_dec(1000), b"1000".to_vec());
    assert_eq!(u64_to_dec(18446744073709551615), b"18446744073709551615".to_vec());
}

#[test]
fn prefix_test() {
    assert!(starts_with_bytes(b"/api/v2", b"/api/"));
    assert!(!starts_with_bytes(b"/ap", b"/api/"));
}
