use workers_connect::middleware::{counter_id, RequestIdLayer};

#[test]
fn assigns_monotonic_id_when_header_missing() {
    let mut layer = RequestIdLayer::new();
    let _svc = layer.layer(());
    let id1 = layer.assign(None);
    let id2 = layer.assign(None);
    assert_eq!(std::str::from_utf8(&id1.0).unwrap(), "req-0");
    assert_eq!(std::str::from_utf8(&id2.0).unwrap(), "req-1");
}

#[test]
fn honors_incoming_x_request_id_header() {
    let mut layer = RequestIdLayer::new();
    let id = layer.assign(Some(b"client-trace-abc".to_vec()));
    assert_eq!(std::str::from_utf8(&id.0).unwrap(), "client-trace-abc");
}

#[test]
fn passes_non_utf8_header_through_unchanged() {
    let mut layer = RequestIdLayer::new();
    let bytes = vec![0xff, 0xfe];
    let id = layer.assign(Some(bytes.clone()));
    assert_eq!(id.0, bytes);
}

#[test]
fn services_of_one_layer_share_the_counter() {
    let mut layer = RequestIdLayer::new();
    let first = layer.layer(1u8);
    let second = layer.layer(2u8);
    assert_eq!(layer.assign(None).0, b"req-0".to_vec());
    assert_eq!(layer.assign(Some(b"given".to_vec())).0, b"given".to_vec());
    assert_eq!(layer.assign(None).0, b"req-1".to_vec());
    assert_eq!(*first.inner(), 1);
    assert_eq!(*second.inner(), 2);
}

#[test]
fn header_does_not_advance_the_counter() {
    let mut layer = RequestIdLayer::new();
    assert_eq!(layer.peek_next_id(), 0);
    layer.assign(Some(b"given".to_vec()));
    assert_eq!(layer.peek_next_id(), 0);
    assert_eq!(layer.assign(None).0, b"req-0".to_vec());
    assert_eq!(layer.peek_next_id(), 1);
}

#[test]
fn separate_layers_count_separately() {
    let mut a = RequestIdLayer::new();
    let mut b = RequestIdLayer::new();
    assert_eq!(a.assign(None).0, b"req-0".to_vec());
    assert_eq!(b.assign(None).0, b"req-0".to_vec());
    assert_eq!(a.assign(None).0, b"req-1".to_vec());
}

#[test]
fn counter_ids_are_decimal_and_valid_header_values() {
    assert_eq!(counter_id(0), b"req-0".to_vec());
    assert_eq!(counter_id(42), b"req-42".to_vec());
    assert_eq!(counter_id(u64::MAX), b"req-18446744073709551615".to_vec());
    assert!(http::HeaderValue::from_bytes(&counter_id(1234567)).is_ok());
}

#[test]
fn inner_mut_reaches_the_wrapped_service() {
    let layer = RequestIdLayer::new();
    let mut svc = layer.layer(5u32);
    *svc.inner_mut() += 1;
    assert_eq!(*svc.inner(), 6);
}
