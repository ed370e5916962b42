//! The communication handler: the façade callers use.
//!
//! It owns exactly one channel ([`IOBackend`]) at a time; selecting a
//! channel replaces the previous one wholesale (dropping it releases
//! whatever device it held), and the capability calls forward to
//! whichever channel is currently held.

use vstd::prelude::*;

verus! {

use crate::MAXIMUM_DATA_LEN;
use crate::io::IOBackend;
use crate::io::endpoint_reply;
use crate::io::room_reply;
use crate::serial::SerialBackend;

/// The capability set every channel offers: make it ready, release it,
/// send one message, try to receive one.  Disabled or device-less
/// channels treat `send` and `receive` as safe no-ops, so a holder may
/// dispatch unconditionally.
pub trait IOHandler {
    /// Makes the channel ready; a failure to acquire its device is
    /// reported, not retried.
    fn enable(&mut self) -> Result<(), String>;

    /// Releases the channel's device, if it holds one; idempotent.
    fn disable(&mut self);

    /// Sends one message of at most [`MAXIMUM_DATA_LEN`] bytes.
    fn send(&mut self, data: &[u8]) -> Result<(), String>;

    /// Receives one message, `Ok(None)` when none is ready.
    fn receive(&mut self) -> Result<Option<Vec<u8>>, String>;
}

/// The top-level handler: owns the one active channel.
pub struct IRCommunicationHandler {
    backend: IOBackend,
}

impl IRCommunicationHandler {
    /// The channel currently held; exactly one exists at a time.
    pub closed spec fn spec_backend(&self) -> IOBackend {
        self.backend
    }

    /// A fresh handler holding the disabled channel.
    pub fn new() -> (r: Self)
        ensures
            r.spec_backend() is Disabled,
    {
        IRCommunicationHandler { backend: IOBackend::new() }
    }

    /// The available serial devices: a name-to-description list with no
    /// two entries sharing a name (see
    /// [`SerialBackend::get_available_serial_ports`]).
    pub fn get_available_serial_ports() -> (r: Result<Vec<(String, String)>, String>)
        ensures
            r matches Ok(ports) ==> forall|i: int, j: int|
                0 <= i < j < ports@.len() ==> (#[trigger] ports@[i].0)@ != (
                #[trigger] ports@[j].0)@,
    {
        SerialBackend::get_available_serial_ports()
    }

    /// The rendezvous rooms on offer: a fixed catalog, not read from
    /// any registry.
    pub fn get_available_rooms() -> (r: Result<Vec<String>, String>)
        ensures
            r is Ok,
            r matches Ok(rooms) ==> (rooms@.len() == 3 && rooms@[0]@ == "Room A"@ && rooms@[1]@
                == "Room B"@ && rooms@[2]@ == "Room C"@),
    {
        let mut rooms: Vec<String> = Vec::new();
        rooms.push("Room A".to_owned());
        rooms.push("Room B".to_owned());
        rooms.push("Room C".to_owned());
        Ok(rooms)
    }

    /// Replaces the active channel with a fresh serial channel for the
    /// named device (not yet opened); the previous channel is dropped,
    /// releasing its resources.
    pub fn select_serial_backend(&mut self, port_name: &str)
        ensures
            (final(self).spec_backend() matches IOBackend::Serial(b) && b.spec_port_name()
                == port_name@ && !b.spec_is_open()),
    {
        self.backend = IOBackend::new_serial(port_name);
    }

    /// Replaces the active channel with a fresh rendezvous-linked
    /// channel for the named room; the previous channel is dropped.
    pub fn select_rendezvous_backend(&mut self, room_name: &str)
        ensures
            (final(self).spec_backend() matches IOBackend::RendezVous(b) && b.spec_room_name()
                == room_name@),
    {
        self.backend = IOBackend::new_rendezvous(room_name);
    }

    /// Replaces the active channel with a fresh direct network channel
    /// between the given endpoints; the previous channel is dropped.
    pub fn select_network_backend(
        &mut self,
        source_port: u16,
        destination_host: &str,
        destination_port: u16,
    )
        ensures
            (final(self).spec_backend() matches IOBackend::Network(b) && b.spec_source_port()
                == source_port && b.spec_destination_host() == destination_host@
                && b.spec_destination_port() == destination_port),
    {
        self.backend = IOBackend::new_network(source_port, destination_host, destination_port);
    }
}

impl IOHandler for IRCommunicationHandler {
    /// Forwards to the active channel; see [`IOBackend::enable`].
    fn enable(&mut self) -> (r: Result<(), String>)
        ensures
            old(self).spec_backend() is Disabled ==> (r is Ok && final(self).spec_backend()
                is Disabled),
            old(self).spec_backend() is RendezVous ==> (r is Ok && *final(self) == *old(self)),
            old(self).spec_backend() is Network ==> (r is Ok && *final(self) == *old(self)),
            old(self).spec_backend() matches IOBackend::Serial(b0) ==> (final(self).spec_backend()
                matches IOBackend::Serial(b1) && b1.spec_port_name() == b0.spec_port_name() && (
            r is Ok ==> b1.spec_is_open()) && (b0.spec_is_open() ==> r is Ok) && (r is Err
                ==> b1.spec_is_open() == b0.spec_is_open())),
    {
        self.backend.enable()
    }

    /// Forwards to the active channel; see [`IOBackend::disable`].
    fn disable(&mut self)
        ensures
            old(self).spec_backend() is Disabled ==> final(self).spec_backend() is Disabled,
            old(self).spec_backend() is RendezVous ==> *final(self) == *old(self),
            old(self).spec_backend() is Network ==> *final(self) == *old(self),
            old(self).spec_backend() matches IOBackend::Serial(b0) ==> (final(self).spec_backend()
                matches IOBackend::Serial(b1) && b1.spec_port_name() == b0.spec_port_name()
                && !b1.spec_is_open()),
    {
        self.backend.disable()
    }

    /// Forwards to the active channel; see [`IOBackend::send`].
    fn send(&mut self, data: &[u8]) -> (r: Result<(), String>)
        ensures
            old(self).spec_backend() is Disabled ==> (r is Ok && final(self).spec_backend()
                is Disabled),
            old(self).spec_backend() is RendezVous ==> (r is Ok && *final(self) == *old(self)),
            old(self).spec_backend() is Network ==> (r is Ok && *final(self) == *old(self)),
            old(self).spec_backend() matches IOBackend::Serial(b0) ==> (final(self).spec_backend()
                matches IOBackend::Serial(b1) && b1.spec_port_name() == b0.spec_port_name()
                && b1.spec_is_open() == b0.spec_is_open() && (!b0.spec_is_open() ==> r is Ok) && (
            b0.spec_is_open() && data@.len() > MAXIMUM_DATA_LEN ==> r is Err)),
    {
        self.backend.send(data)
    }

    /// Forwards to the active channel; see [`IOBackend::receive`].
    fn receive(&mut self) -> (r: Result<Option<Vec<u8>>, String>)
        ensures
            old(self).spec_backend() is Disabled ==> (r matches Ok(m) && m is None
                && final(self).spec_backend() is Disabled),
            old(self).spec_backend() matches IOBackend::RendezVous(b0) ==> ((r matches Ok(Some(v))
                && v@ == room_reply(b0.spec_room_name())) && *final(self) == *old(self)),
            old(self).spec_backend() matches IOBackend::Network(b0) ==> ((r matches Ok(Some(v))
                && v@ == endpoint_reply(b0.spec_destination_host(), b0.spec_destination_port()))
                && *final(self) == *old(self)),
            old(self).spec_backend() matches IOBackend::Serial(b0) ==> (final(self).spec_backend()
                matches IOBackend::Serial(b1) && b1.spec_port_name() == b0.spec_port_name()
                && b1.spec_is_open() == b0.spec_is_open() && (!b0.spec_is_open()
                ==> (r matches Ok(m) && m is None)) && (r matches Ok(Some(v)) ==> 1 <= v@.len()
                <= MAXIMUM_DATA_LEN)),
    {
        self.backend.receive()
    }
}

} // verus!
