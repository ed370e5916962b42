use ntir_link::codec::encode_frame;

#[test]
fn encode_two_bytes() {
    let wire = encode_frame(&[0x41, 0x42]).unwrap();
    assert_eq!(wire, vec![0x02, 0x41, 0x42]);
}

#[test]
fn encode_empty_payload() {
    let wire = encode_frame(&[]).unwrap();
    assert_eq!(wire, vec![0x00]);
}

#[test]
fn encode_largest_payload() {
    let payload = vec![0xABu8; 255];
    let wire = encode_frame(&payload).unwrap();
    assert_eq!(wire.len(), 256);
    assert_eq!(wire[0], 255);
    assert_eq!(&wire[1..], &payload[..]);
}

#[test]
fn encode_oversized_payload_rejected() {
    let payload = vec![0u8; 256];
    assert!(encode_frame(&payload).is_err());
}
