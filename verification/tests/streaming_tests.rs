use icx_proxy::streaming::{StreamAssembler, MAX_STREAM_CALLBACK_CALLS};

#[test]
fn stream_terminates_on_missing_token() {
    let mut assembler = StreamAssembler::new(b"part1".to_vec());
    assert!(assembler.begin_callback());
    assembler.on_chunk(b"part2", true);
    assert!(assembler.is_streaming());
    assert!(assembler.begin_callback());
    assembler.on_chunk(b"part3", false);
    assert!(assembler.is_closed());
    assert_eq!(assembler.delivered_bytes(), &b"part1part2part3".to_vec());
    assert_eq!(assembler.calls_made(), 2);
}

#[test]
fn stream_aborts_at_call_ceiling() {
    let mut assembler = StreamAssembler::new(b"start".to_vec());
    let mut granted: u64 = 0;
    loop {
        if !assembler.begin_callback() {
            break;
        }
        granted += 1;
        assembler.on_chunk(b"x", true);
    }
    assert_eq!(granted, MAX_STREAM_CALLBACK_CALLS);
    assert_eq!(assembler.calls_made(), 1000);
    assert!(assembler.is_aborted());
    // Everything sent before the abort is kept.
    assert_eq!(assembler.delivered_bytes().len(), 5 + 1000);
}

#[test]
fn stream_failure_keeps_partial_body() {
    let mut assembler = StreamAssembler::new(b"head".to_vec());
    assert!(assembler.begin_callback());
    assembler.on_chunk(b"-tail", true);
    assembler.on_failure();
    assert!(assembler.is_aborted());
    assert_eq!(assembler.delivered_bytes(), &b"head-tail".to_vec());
}
