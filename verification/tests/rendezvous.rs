use ntir_link::rendezvous::{
    parse_advertised_port, render_decimal, rendezvous_directory_name, DirEntry, RendezVous,
};

#[test]
fn render_port_number() {
    assert_eq!(render_decimal(8080), b"8080".to_vec());
}

#[test]
fn render_zero() {
    assert_eq!(render_decimal(0), b"0".to_vec());
}

#[test]
fn render_largest_pid() {
    assert_eq!(render_decimal(u32::MAX), u32::MAX.to_string().into_bytes());
}

#[test]
fn parse_plain_port() {
    assert_eq!(parse_advertised_port(&b"8080".to_vec()), Some(8080));
}

#[test]
fn parse_with_plus_sign() {
    assert_eq!(parse_advertised_port(&b"+123".to_vec()), Some(123));
}

#[test]
fn parse_leading_zeros() {
    assert_eq!(parse_advertised_port(&b"0042".to_vec()), Some(42));
}

#[test]
fn parse_limits() {
    assert_eq!(parse_advertised_port(&b"65535".to_vec()), Some(65535));
    assert_eq!(parse_advertised_port(&b"65536".to_vec()), None);
    assert_eq!(parse_advertised_port(&b"99999999999999999999".to_vec()), None);
}

#[test]
fn parse_malformed_content() {
    assert_eq!(parse_advertised_port(&b"".to_vec()), None);
    assert_eq!(parse_advertised_port(&b"+".to_vec()), None);
    assert_eq!(parse_advertised_port(&b"12a".to_vec()), None);
    assert_eq!(parse_advertised_port(&b"-1".to_vec()), None);
    assert_eq!(parse_advertised_port(&b" 80".to_vec()), None);
    assert_eq!(parse_advertised_port(&vec![0xFF, 0x31]), None);
}

#[test]
fn advertisement_name_and_content() {
    let rdv = RendezVous::new(1234, 8080);
    assert_eq!(rdv.advertisement_filename(), b"1234".to_vec());
    assert_eq!(rdv.advertisement_content(), b"8080".to_vec());
}

#[test]
fn advertised_port_round_trips() {
    let rdv = RendezVous::new(42, 61234);
    assert_eq!(parse_advertised_port(&rdv.advertisement_content()), Some(61234));
}

fn entry(name: &[u8], content: &[u8]) -> DirEntry {
    DirEntry { name: name.to_vec(), is_file: true, content: content.to_vec() }
}

#[test]
fn pairwise_rendezvous_consumes_peer_once() {
    // Advertisers A and B with distinct identifiers in one directory.
    let a = RendezVous::new(111, 7000);
    let b = RendezVous::new(222, 7001);
    let dir = vec![
        entry(&a.advertisement_filename(), &a.advertisement_content()),
        entry(&b.advertisement_filename(), &b.advertisement_content()),
    ];
    // A's scan skips its own advertisement and consumes B's.
    let met = a.try_to_meet(&dir);
    assert_eq!(met.consumed, Some(1));
    assert_eq!(met.peer_port, Some(7001));
    // B's file was deleted (first reader wins); a second scan sees only
    // A's own advertisement and reports no peer yet.
    let dir_after = vec![entry(&a.advertisement_filename(), &a.advertisement_content())];
    let again = a.try_to_meet(&dir_after);
    assert_eq!(again.consumed, None);
    assert_eq!(again.peer_port, None);
}

#[test]
fn scan_order_does_not_hide_the_peer() {
    let a = RendezVous::new(111, 7000);
    let b = RendezVous::new(222, 7001);
    let dir = vec![
        entry(&b.advertisement_filename(), &b.advertisement_content()),
        entry(&a.advertisement_filename(), &a.advertisement_content()),
    ];
    let met = a.try_to_meet(&dir);
    assert_eq!(met.consumed, Some(0));
    assert_eq!(met.peer_port, Some(7001));
}

#[test]
fn non_files_are_skipped() {
    let a = RendezVous::new(111, 7000);
    let dir = vec![
        DirEntry { name: b"subdir".to_vec(), is_file: false, content: Vec::new() },
        entry(b"222", b"7001"),
    ];
    let met = a.try_to_meet(&dir);
    assert_eq!(met.consumed, Some(1));
    assert_eq!(met.peer_port, Some(7001));
}

#[test]
fn unparsable_peer_advertisement_is_consumed_without_a_port() {
    let a = RendezVous::new(111, 7000);
    let dir = vec![entry(b"222", b"not a port")];
    let met = a.try_to_meet(&dir);
    assert_eq!(met.consumed, Some(0));
    assert_eq!(met.peer_port, None);
}

#[test]
fn empty_directory_has_no_peer() {
    let a = RendezVous::new(111, 7000);
    let met = a.try_to_meet(&Vec::new());
    assert_eq!(met.consumed, None);
    assert_eq!(met.peer_port, None);
}

#[test]
fn teardown_name_never_matches_a_peer() {
    // Distinct process identifiers give distinct advertisement names,
    // so removing one's own file cannot remove the peer's.
    let a = RendezVous::new(1, 7000);
    let b = RendezVous::new(2, 7001);
    assert_ne!(a.advertisement_filename(), b.advertisement_filename());
}

#[test]
fn directory_name_is_fixed() {
    assert_eq!(rendezvous_directory_name(), "ntir11-rdv");
}
