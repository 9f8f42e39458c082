use workers_connect::clock::{Clock, TickResponse, MAX_TICKS};
use workers_connect::error::ErrorCode;

fn collect(count: u32) -> Result<Vec<TickResponse>, workers_connect::error::RpcError> {
    Clock.tick(count)
}

#[test]
fn tick_emits_zero_messages_for_zero_count() {
    assert!(collect(0).unwrap().is_empty());
}

#[test]
fn tick_emits_sequential_messages() {
    let out = collect(5).unwrap();
    let seqs: Vec<u32> = out.into_iter().map(|m| m.sequence).collect();
    assert_eq!(seqs, vec![0, 1, 2, 3, 4]);
}

#[test]
fn tick_rejects_excessive_count() {
    let err = collect(MAX_TICKS + 1).err().expect("should reject");
    assert_eq!(err.code, ErrorCode::InvalidArgument);
}

#[test]
fn tick_error_message_names_count_and_limit() {
    let err = collect(5000).err().unwrap();
    assert_eq!(err.message, "count 5000 exceeds maximum of 1024");
}

#[test]
fn tick_accepts_exactly_the_limit() {
    let out = collect(MAX_TICKS).unwrap();
    assert_eq!(out.len(), 1024);
    assert_eq!(out[1023].sequence, 1023);
}
