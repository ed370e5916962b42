use ntir_link::codec::encode_frame;
use ntir_link::reassembly::{receive_bursts, Burst, Reassembly, RxStep};

fn one_burst(bytes: Vec<u8>) -> Vec<Burst> {
    vec![Burst { long_gap_before: false, bytes }]
}

#[test]
fn one_burst_round_trip() {
    // The concrete scenario: wire bytes [0x02, 0x41, 0x42] in one burst.
    let r = receive_bursts(&one_burst(vec![0x02, 0x41, 0x42]));
    assert_eq!(r, Some(vec![0x41, 0x42]));
}

#[test]
fn header_then_long_gap_times_out() {
    // Header 0x02, then a gap over the receive timeout, then one byte:
    // the partial frame is abandoned as "no message".
    let bursts = vec![
        Burst { long_gap_before: false, bytes: vec![0x02] },
        Burst { long_gap_before: true, bytes: vec![0x41] },
    ];
    assert_eq!(receive_bursts(&bursts), None);
}

#[test]
fn chunked_delivery_reassembles() {
    // Header + first payload byte, then the rest in two short-gap bursts.
    let bursts = vec![
        Burst { long_gap_before: false, bytes: vec![0x03, 0x01] },
        Burst { long_gap_before: false, bytes: vec![0x02] },
        Burst { long_gap_before: false, bytes: vec![0x03] },
    ];
    assert_eq!(receive_bursts(&bursts), Some(vec![0x01, 0x02, 0x03]));
}

#[test]
fn empty_schedule_is_no_message() {
    assert_eq!(receive_bursts(&Vec::new()), None);
}

#[test]
fn quiet_start_is_no_message() {
    let bursts = vec![Burst { long_gap_before: true, bytes: vec![0x02, 0x41, 0x42] }];
    assert_eq!(receive_bursts(&bursts), None);
}

#[test]
fn overshooting_burst_is_discarded() {
    // Three payload bytes arrive at once where the header declared two:
    // the frame is dropped, not truncated.
    assert_eq!(receive_bursts(&one_burst(vec![0x02, 0x41, 0x42, 0x43])), None);
}

#[test]
fn zero_header_is_no_message() {
    assert_eq!(receive_bursts(&one_burst(vec![0x00])), None);
}

#[test]
fn partial_frame_without_more_bytes_is_no_message() {
    assert_eq!(receive_bursts(&one_burst(vec![0x05, 0x01, 0x02])), None);
}

#[test]
fn encoded_frames_round_trip() {
    for payload in [vec![0x00u8], vec![0x7F; 10], vec![0xFF; 255]] {
        let wire = encode_frame(&payload).unwrap();
        assert_eq!(receive_bursts(&one_burst(wire)), Some(payload));
    }
}

#[test]
fn poll_decisions() {
    let mut st = Reassembly::new();
    // No bytes and no header: finish immediately, never block.
    assert_eq!(st.on_poll(0, false), RxStep::Finish);
    // Bytes available before the header: read the header, one byte.
    assert_eq!(st.on_poll(3, false), RxStep::ReadHeader);
    st.on_header(2);
    // Waiting for payload: keep polling within the timeout, give up past it.
    assert_eq!(st.on_poll(0, false), RxStep::Poll);
    assert_eq!(st.on_poll(0, true), RxStep::Finish);
    // Payload bytes available: read them all.
    assert_eq!(st.on_poll(2, false), RxStep::ReadChunk(2));
}

#[test]
fn step_machine_completes_frame() {
    let mut st = Reassembly::new();
    st.on_header(2);
    assert!(!st.on_chunk(&vec![0x41]));
    assert!(st.on_chunk(&vec![0x42]));
    assert_eq!(st.finish(), Some(vec![0x41, 0x42]));
}

#[test]
fn short_gathering_is_discarded() {
    let mut st = Reassembly::new();
    st.on_header(3);
    assert!(!st.on_chunk(&vec![0x41]));
    assert_eq!(st.finish(), None);
}
