//! The channel (backend) abstraction: a closed choice of channel
//! variants unified behind the [`IOHandler`] capability set.
//!
//! Exactly one variant is held at a time; the `Disabled` variant makes
//! every capability a trivial success or empty result, so the handler
//! can dispatch unconditionally.  The rendezvous-linked and direct
//! network variants are placeholders in the current system: they accept
//! every call and fabricate a canned greeting naming their room or
//! endpoint.

use vstd::prelude::*;

verus! {

use vstd::string::StringSliceAdditionalSpecFns;
use vstd::utf8::encode_utf8;
use crate::MAXIMUM_DATA_LEN;
use crate::handler::IOHandler;
use crate::rendezvous::dec_digits;
use crate::rendezvous::render_decimal;
use crate::serial::SerialBackend;

/// The reply the rendezvous-linked placeholder fabricates: a greeting
/// naming the room it was selected for.
pub open spec fn room_reply(room: Seq<char>) -> Seq<u8> {
    "Hello back from '".spec_bytes() + encode_utf8(room) + "'".spec_bytes()
}

/// The reply the network placeholder fabricates: a greeting naming the
/// destination endpoint.
pub open spec fn endpoint_reply(host: Seq<char>, port: u16) -> Seq<u8> {
    "Hello back from '".spec_bytes() + encode_utf8(host) + ":".spec_bytes() + dec_digits(
        port as nat,
    ) + "'".spec_bytes()
}

fn append_bytes(dst: &mut Vec<u8>, src: &[u8])
    ensures
        final(dst)@ == old(dst)@ + src@,
{
    let ghost dst0 = dst@;
    let mut i: usize = 0;
    while i < src.len()
        invariant
            i <= src@.len(),
            dst@ == dst0 + src@.take(i as int),
        decreases src@.len() - i,
    {
        dst.push(src[i]);
        i = i + 1;
    }
    assert(src@.take(src@.len() as int) == src@);
}

fn make_room_reply(room: &String) -> (r: Vec<u8>)
    ensures
        r@ == room_reply(room@),
{
    let mut r = vstd::slice::slice_to_vec("Hello back from '".as_bytes());
    append_bytes(&mut r, room.as_str().as_bytes());
    append_bytes(&mut r, "'".as_bytes());
    r
}

fn make_endpoint_reply(host: &String, port: u16) -> (r: Vec<u8>)
    ensures
        r@ == endpoint_reply(host@, port),
{
    let mut r = vstd::slice::slice_to_vec("Hello back from '".as_bytes());
    append_bytes(&mut r, host.as_str().as_bytes());
    append_bytes(&mut r, ":".as_bytes());
    let digits = render_decimal(port as u32);
    append_bytes(&mut r, digits.as_slice());
    append_bytes(&mut r, "'".as_bytes());
    proof {
        assert(r@ =~= endpoint_reply(host@, port));
    }
    r
}

/// Placeholder channel for a rendezvous-linked room: remembers the room
/// name, accepts every call, and fabricates a canned reply.
pub struct RendezVousBackend {
    room_name: String,
}

impl RendezVousBackend {
    /// The room this channel was selected for.
    pub closed spec fn spec_room_name(&self) -> Seq<char> {
        self.room_name@
    }

    pub fn new(room_name: &str) -> (r: Self)
        ensures
            r.spec_room_name() == room_name@,
    {
        RendezVousBackend { room_name: room_name.to_owned() }
    }
}

impl IOHandler for RendezVousBackend {
    fn enable(&mut self) -> (r: Result<(), String>)
        ensures
            r is Ok,
            *final(self) == *old(self),
    {
        Ok(())
    }

    fn disable(&mut self)
        ensures
            *final(self) == *old(self),
    {
    }

    fn send(&mut self, data: &[u8]) -> (r: Result<(), String>)
        ensures
            r is Ok,
            *final(self) == *old(self),
    {
        Ok(())
    }

    fn receive(&mut self) -> (r: Result<Option<Vec<u8>>, String>)
        ensures
            (r matches Ok(Some(v)) && v@ == room_reply(old(self).spec_room_name())),
            *final(self) == *old(self),
    {
        Ok(Some(make_room_reply(&self.room_name)))
    }
}

/// Placeholder channel for a direct network link: remembers the
/// endpoints, accepts every call, and fabricates a canned reply.
pub struct NetworkBackend {
    source_port: u16,
    destination_host: String,
    destination_port: u16,
}

impl NetworkBackend {
    pub closed spec fn spec_source_port(&self) -> u16 {
        self.source_port
    }

    pub closed spec fn spec_destination_host(&self) -> Seq<char> {
        self.destination_host@
    }

    pub closed spec fn spec_destination_port(&self) -> u16 {
        self.destination_port
    }

    pub fn new(source_port: u16, destination_host: &str, destination_port: u16) -> (r: Self)
        ensures
            r.spec_source_port() == source_port,
            r.spec_destination_host() == destination_host@,
            r.spec_destination_port() == destination_port,
    {
        NetworkBackend {
            source_port,
            destination_host: destination_host.to_owned(),
            destination_port,
        }
    }
}

impl IOHandler for NetworkBackend {
    fn enable(&mut self) -> (r: Result<(), String>)
        ensures
            r is Ok,
            *final(self) == *old(self),
    {
        Ok(())
    }

    fn disable(&mut self)
        ensures
            *final(self) == *old(self),
    {
    }

    fn send(&mut self, data: &[u8]) -> (r: Result<(), String>)
        ensures
            r is Ok,
            *final(self) == *old(self),
    {
        Ok(())
    }

    fn receive(&mut self) -> (r: Result<Option<Vec<u8>>, String>)
        ensures
            (r matches Ok(Some(v)) && v@ == endpoint_reply(
                old(self).spec_destination_host(),
                old(self).spec_destination_port(),
            )),
            *final(self) == *old(self),
    {
        Ok(Some(make_endpoint_reply(&self.destination_host, self.destination_port)))
    }
}

/// The closed set of channel variants.  Replacing the held value drops
/// the previous variant and with it any device handle it owned.
pub enum IOBackend {
    Disabled,
    Serial(SerialBackend),
    RendezVous(RendezVousBackend),
    Network(NetworkBackend),
}

impl IOBackend {
    /// The initial channel: disabled.
    pub fn new() -> (r: Self)
        ensures
            r is Disabled,
    {
        IOBackend::Disabled
    }

    /// A serial channel for the named device, not yet opened.
    pub fn new_serial(port_name: &str) -> (r: Self)
        ensures
            (r matches IOBackend::Serial(b) && b.spec_port_name() == port_name@
                && !b.spec_is_open()),
    {
        IOBackend::Serial(SerialBackend::new(port_name))
    }

    /// A rendezvous-linked channel for the named room.
    pub fn new_rendezvous(room_name: &str) -> (r: Self)
        ensures
            (r matches IOBackend::RendezVous(b) && b.spec_room_name() == room_name@),
    {
        IOBackend::RendezVous(RendezVousBackend::new(room_name))
    }

    /// A direct network channel between the given endpoints.
    pub fn new_network(source_port: u16, destination_host: &str, destination_port: u16) -> (r:
        Self)
        ensures
            (r matches IOBackend::Network(b) && b.spec_source_port() == source_port
                && b.spec_destination_host() == destination_host@ && b.spec_destination_port()
                == destination_port),
    {
        IOBackend::Network(NetworkBackend::new(source_port, destination_host, destination_port))
    }
}

impl IOHandler for IOBackend {
    /// Dispatch of `enable`: a disabled channel succeeds untouched; a
    /// placeholder channel succeeds untouched; a serial channel opens
    /// its device (or reports why it could not).
    fn enable(&mut self) -> (r: Result<(), String>)
        ensures
            *old(self) is Disabled ==> (r is Ok && *final(self) is Disabled),
            *old(self) is RendezVous ==> (r is Ok && *final(self) == *old(self)),
            *old(self) is Network ==> (r is Ok && *final(self) == *old(self)),
            *old(self) matches IOBackend::Serial(b0) ==> (*final(self) matches IOBackend::Serial(b1)
                && b1.spec_port_name() == b0.spec_port_name() && (r is Ok
                ==> b1.spec_is_open()) && (b0.spec_is_open() ==> r is Ok) && (r is Err
                ==> b1.spec_is_open() == b0.spec_is_open())),
    {
        match self {
            IOBackend::Disabled => Ok(()),
            IOBackend::Serial(backend) => backend.enable(),
            IOBackend::RendezVous(backend) => backend.enable(),
            IOBackend::Network(backend) => backend.enable(),
        }
    }

    /// Dispatch of `disable`: always a safe no-op on channels without a
    /// device; a serial channel closes its handle.
    fn disable(&mut self)
        ensures
            *old(self) is Disabled ==> *final(self) is Disabled,
            *old(self) is RendezVous ==> *final(self) == *old(self),
            *old(self) is Network ==> *final(self) == *old(self),
            *old(self) matches IOBackend::Serial(b0) ==> (*final(self) matches IOBackend::Serial(b1)
                && b1.spec_port_name() == b0.spec_port_name() && !b1.spec_is_open()),
    {
        match self {
            IOBackend::Disabled => {},
            IOBackend::Serial(backend) => backend.disable(),
            IOBackend::RendezVous(backend) => backend.disable(),
            IOBackend::Network(backend) => backend.disable(),
        }
    }

    /// Dispatch of `send`: a disabled channel silently drops the data
    /// and succeeds; placeholders accept it; a serial channel frames
    /// and writes it when open (rejecting an over-long payload) and
    /// silently drops it when closed.
    fn send(&mut self, data: &[u8]) -> (r: Result<(), String>)
        ensures
            *old(self) is Disabled ==> (r is Ok && *final(self) is Disabled),
            *old(self) is RendezVous ==> (r is Ok && *final(self) == *old(self)),
            *old(self) is Network ==> (r is Ok && *final(self) == *old(self)),
            *old(self) matches IOBackend::Serial(b0) ==> (*final(self) matches IOBackend::Serial(b1)
                && b1.spec_port_name() == b0.spec_port_name() && b1.spec_is_open()
                == b0.spec_is_open() && (!b0.spec_is_open() ==> r is Ok) && (b0.spec_is_open()
                && data@.len() > MAXIMUM_DATA_LEN ==> r is Err)),
    {
        match self {
            IOBackend::Disabled => Ok(()),
            IOBackend::Serial(backend) => backend.send(data),
            IOBackend::RendezVous(backend) => backend.send(data),
            IOBackend::Network(backend) => backend.send(data),
        }
    }

    /// Dispatch of `receive`: a disabled channel reports "no message";
    /// placeholders fabricate their canned reply; a serial channel runs
    /// the reassembly loop when open and reports "no message" when
    /// closed.
    fn receive(&mut self) -> (r: Result<Option<Vec<u8>>, String>)
        ensures
            *old(self) is Disabled ==> (r matches Ok(m) && m is None && *final(self) is Disabled),
            *old(self) matches IOBackend::RendezVous(b0) ==> ((r matches Ok(Some(v)) && v@
                == room_reply(b0.spec_room_name())) && *final(self) == *old(self)),
            *old(self) matches IOBackend::Network(b0) ==> ((r matches Ok(Some(v)) && v@
                == endpoint_reply(b0.spec_destination_host(), b0.spec_destination_port()))
                && *final(self) == *old(self)),
            *old(self) matches IOBackend::Serial(b0) ==> (*final(self) matches IOBackend::Serial(b1)
                && b1.spec_port_name() == b0.spec_port_name() && b1.spec_is_open()
                == b0.spec_is_open() && (!b0.spec_is_open() ==> (r matches Ok(m) && m is None))
                && (r matches Ok(Some(v)) ==> 1 <= v@.len() <= MAXIMUM_DATA_LEN)),
    {
        match self {
            IOBackend::Disabled => Ok(None),
            IOBackend::Serial(backend) => backend.receive(),
            IOBackend::RendezVous(backend) => backend.receive(),
            IOBackend::Network(backend) => backend.receive(),
        }
    }
}

} // verus!
