use ntir_link::handler::{IOHandler, IRCommunicationHandler};
use ntir_link::io::{IOBackend, NetworkBackend, RendezVousBackend};
use ntir_link::serial::SerialBackend;

#[test]
fn fresh_handler_is_disabled_and_noops() {
    // Enabling a disabled channel, sending on it and receiving from it
    // are all no-ops that never error.
    let mut handler = IRCommunicationHandler::new();
    assert_eq!(handler.enable(), Ok(()));
    assert_eq!(handler.send(&[0x41, 0x42]), Ok(()));
    assert_eq!(handler.receive(), Ok(None));
    handler.disable();
    assert_eq!(handler.receive(), Ok(None));
}

#[test]
fn placeholder_rendezvous_channel() {
    let mut backend = RendezVousBackend::new("Room A");
    assert_eq!(backend.enable(), Ok(()));
    assert_eq!(backend.send(&[1, 2, 3]), Ok(()));
    assert_eq!(backend.receive(), Ok(Some(b"Hello back from 'Room A'".to_vec())));
    backend.disable();
}

#[test]
fn placeholder_network_channel() {
    let mut backend = NetworkBackend::new(4000, "localhost", 4001);
    assert_eq!(backend.enable(), Ok(()));
    assert_eq!(backend.send(&[]), Ok(()));
    assert_eq!(backend.receive(), Ok(Some(b"Hello back from 'localhost:4001'".to_vec())));
    backend.disable();
}

#[test]
fn backend_dispatch_matches_variant() {
    let mut disabled = IOBackend::new();
    assert_eq!(disabled.enable(), Ok(()));
    assert_eq!(disabled.send(&[9]), Ok(()));
    assert_eq!(disabled.receive(), Ok(None));

    let mut room = IOBackend::new_rendezvous("Room B");
    assert_eq!(room.receive(), Ok(Some(b"Hello back from 'Room B'".to_vec())));

    let mut net = IOBackend::new_network(4000, "localhost", 4001);
    assert_eq!(net.receive(), Ok(Some(b"Hello back from 'localhost:4001'".to_vec())));
}

#[test]
fn selecting_a_channel_replaces_the_previous_one() {
    // Exactly one channel is active at a time: after switching away
    // from the serial channel, the handler behaves as the new variant.
    let mut handler = IRCommunicationHandler::new();
    handler.select_serial_backend("/dev/ntir-missing-device");
    assert_eq!(handler.send(&[1]), Ok(()));  // serial, not opened: silent drop
    assert_eq!(handler.receive(), Ok(None));
    handler.select_rendezvous_backend("Room C");
    assert_eq!(handler.receive(), Ok(Some(b"Hello back from 'Room C'".to_vec())));
    handler.select_network_backend(4000, "localhost", 4001);
    assert_eq!(handler.receive(), Ok(Some(b"Hello back from 'localhost:4001'".to_vec())));
}

#[test]
fn serial_channel_without_device_noops() {
    let mut backend = SerialBackend::new("/dev/ntir-missing-device");
    assert_eq!(backend.send(&[1, 2]), Ok(()));
    assert_eq!(backend.receive(), Ok(None));
    backend.disable();
}

#[test]
fn enabling_a_missing_device_errors() {
    let mut handler = IRCommunicationHandler::new();
    handler.select_serial_backend("/dev/ntir-missing-device");
    assert!(handler.enable().is_err());
    // The failure leaves the channel closed: send stays a silent drop.
    assert_eq!(handler.send(&[1]), Ok(()));
}

#[test]
fn open_serial_device_sends_and_rejects_oversize() {
    // A pseudo-terminal stands in for a serial device where one exists.
    let mut backend = SerialBackend::new("/dev/ptmx");
    if backend.enable().is_ok() {
        // Idempotent enable.
        assert_eq!(backend.enable(), Ok(()));
        // A frame within the bound is written; an over-long payload is
        // rejected rather than silently corrupted.
        assert_eq!(backend.send(&[0x41, 0x42]), Ok(()));
        assert!(backend.send(&vec![0u8; 256]).is_err());
        backend.disable();
        assert_eq!(backend.receive(), Ok(None));
    }
}

#[test]
fn available_ports_have_unique_names() {
    // Device enumeration never returns duplicate device-name keys.
    match IRCommunicationHandler::get_available_serial_ports() {
        Ok(ports) => {
            for i in 0..ports.len() {
                for j in (i + 1)..ports.len() {
                    assert_ne!(ports[i].0, ports[j].0);
                }
            }
        },
        Err(e) => {
            assert!(!e.is_empty());
        },
    }
}

#[test]
fn duplicate_enumeration_entries_are_collapsed() {
    let raw = vec![
        ("ttyS0".to_string(), Some("first".to_string())),
        ("ttyS1".to_string(), None),
        ("ttyS0".to_string(), Some("second".to_string())),
    ];
    let ports = ntir_link::serial::dedup_ports(&raw);
    // The name keeps its first position; the description is the last
    // one enumerated for it, as a map built by repeated insertion.
    assert_eq!(
        ports,
        vec![
            ("ttyS0".to_string(), "second".to_string()),
            ("ttyS1".to_string(), "".to_string())
        ]
    );
}

#[test]
fn room_catalog_is_fixed() {
    let rooms = IRCommunicationHandler::get_available_rooms().unwrap();
    assert_eq!(rooms, vec!["Room A", "Room B", "Room C"]);
}
