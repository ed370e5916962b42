//! The serial link: an open device handle, the framing protocol over
//! it, and device enumeration.
//!
//! The device itself — opening, byte counts, reads, writes and the
//! clock — is reached through small trusted wrappers around the
//! `serialport` crate and `std::time`; every decision taken on what
//! they return is verified code built on [`crate::codec`] and
//! [`crate::reassembly`].

use vstd::prelude::*;

verus! {

use crate::MAXIMUM_DATA_LEN;
use crate::SERIAL_RX_TIMEOUT_MS;
use crate::SERIAL_BAUD_RATE;
use crate::codec::encode_frame;
use crate::handler::IOHandler;
use crate::reassembly::Reassembly;
use crate::reassembly::RxStep;

/// A bound on how many times one `receive` call may poll the device, so
/// that the call cannot spin forever should the device stay silent
/// while the clock fails to advance; at realistic poll rates the
/// receive timeout strikes thousands of polls before this does.
pub const MAX_RECEIVE_POLLS: u64 = 1000000000;

/// Whether the text `m` begins with `prefix`.
pub open spec fn starts_with_text(m: Seq<char>, prefix: Seq<char>) -> bool {
    m.len() >= prefix.len() && m.take(prefix.len() as int) == prefix
}

#[verifier::external_type_specification]
#[verifier::external_body]
pub struct ExTTYPort(serialport::TTYPort);

#[verifier::external_type_specification]
#[verifier::external_body]
pub struct ExInstant(std::time::Instant);

/// Relies on `serialport::new` and `SerialPortBuilder::open_native`:
/// opens the named device at the given baud rate, or reports why it
/// could not.
#[verifier::external_body]
fn open_port(name: &str, baud: u32) -> (r: Result<serialport::TTYPort, String>)
{
    match serialport::new(name, baud).open_native() {
        Ok(port) => Ok(port),
        Err(e) => Err(e.to_string()),
    }
}

/// Relies on `serialport::SerialPort::bytes_to_read`: how many bytes
/// wait in the device's receive buffer right now.  A failure is
/// reported under the fixed prefix built here.
#[verifier::external_body]
fn port_bytes_to_read(port: &serialport::TTYPort) -> (r: Result<u32, String>)
    ensures
        r matches Err(m) ==> starts_with_text(m@, "Fail on bytes_to_read: "@),
{
    match serialport::SerialPort::bytes_to_read(port) {
        Ok(n) => Ok(n),
        Err(e) => Err(format!("Fail on bytes_to_read: {}", e)),
    }
}

/// Relies on `std::io::Read::read` on the port: fills a prefix of the
/// buffer handed to it and reports failures.  The returned vector is
/// built here with exactly `n` bytes; positions past what the device
/// delivered stay zero.
#[verifier::external_body]
fn port_read_chunk(port: &mut serialport::TTYPort, n: usize) -> (r: Result<Vec<u8>, String>)
    ensures
        r matches Ok(v) ==> v@.len() == n,
        r matches Err(m) ==> starts_with_text(m@, "Fail on read: "@),
{
    let mut buf: Vec<u8> = vec![0u8; n];
    match std::io::Read::read(port, &mut buf) {
        Ok(_) => Ok(buf),
        Err(e) => Err(format!("Fail on read: {}", e)),
    }
}

/// Relies on `std::io::Write::write_all` on the port: writes the whole
/// buffer or reports the first failure under the fixed prefix built
/// here.
#[verifier::external_body]
fn port_write_all(port: &mut serialport::TTYPort, wire: &Vec<u8>) -> (r: Result<(), String>)
    ensures
        r matches Err(m) ==> starts_with_text(m@, "Fail on write_all: "@),
{
    match std::io::Write::write_all(port, wire.as_slice()) {
        Ok(()) => Ok(()),
        Err(e) => Err(format!("Fail on write_all: {}", e)),
    }
}

/// Relies on `std::io::Write::flush` on the port.  A failure is
/// reported under the fixed prefix built here.
#[verifier::external_body]
fn port_flush(port: &mut serialport::TTYPort) -> (r: Result<(), String>)
    ensures
        r matches Err(m) ==> starts_with_text(m@, "Fail on flush: "@),
{
    match std::io::Write::flush(port) {
        Ok(()) => Ok(()),
        Err(e) => Err(format!("Fail on flush: {}", e)),
    }
}

/// Relies on `std::time::Instant::now`: a reading of the monotonic
/// clock.
#[verifier::external_body]
fn instant_now() -> (r: std::time::Instant)
{
    std::time::Instant::now()
}

/// Relies on `std::time::Instant::elapsed`: the time since the reading
/// was taken (zero if the clock appears to have gone backwards).
#[verifier::external_body]
fn instant_elapsed(t: &std::time::Instant) -> (r: core::time::Duration)
{
    t.elapsed()
}

/// Relies on `core::time::Duration::as_millis`.
#[verifier::external_body]
fn duration_as_millis(d: &core::time::Duration) -> (r: u128)
{
    d.as_millis()
}

/// Relies on `serialport::available_ports`: one entry per device the
/// platform reports, with its name and, for a USB device, the product
/// string when there is one.  Built without udev support the crate
/// scans `/sys/class/tty` and aborts when that directory cannot be
/// opened, so that case is turned into an error before the call.
#[verifier::external_body]
fn available_ports_raw() -> (r: Result<Vec<(String, Option<String>)>, String>)
{
    if std::path::Path::new("/sys/class/tty").read_dir().is_err() {
        return Err("serial device enumeration is unavailable on this system".to_string());
    }
    let ports = match serialport::available_ports() {
        Ok(ports) => ports,
        Err(e) => return Err(e.to_string()),
    };
    Ok(ports.into_iter().map(|p| (p.port_name, match p.port_type {
        serialport::SerialPortType::UsbPort(info) => info.product,
        serialport::SerialPortType::PciPort => None,
        serialport::SerialPortType::BluetoothPort => None,
        serialport::SerialPortType::Unknown => None,
    })).collect())
}

/// The description shown for a device: the platform's string when there
/// is one, empty otherwise.
pub open spec fn description_view(d: Option<String>) -> Seq<char> {
    match d {
        Some(s) => s@,
        None => Seq::<char>::empty(),
    }
}

/// Every directory entry names an enumerated device and carries that
/// device's description.
pub open spec fn ports_sourced(r: Seq<(String, String)>, raw: Seq<(String, Option<String>)>) -> bool {
    forall|k: int| 0 <= k < r.len() ==> exists|m: int|
        0 <= m < raw.len() && (#[trigger] r[k].0)@ == (raw[m].0)@ && r[k].1@
            == description_view(raw[m].1)
}

/// Every enumerated device's name appears in the directory.
pub open spec fn ports_cover(r: Seq<(String, String)>, raw: Seq<(String, Option<String>)>) -> bool {
    forall|m: int| #![trigger raw[m]] 0 <= m < raw.len() ==> exists|k: int|
        0 <= k < r.len() && (#[trigger] r[k].0)@ == (raw[m].0)@
}

fn replace_description(out: &mut Vec<(String, String)>, k: usize, description: String)
    requires
        k < old(out)@.len(),
    ensures
        final(out)@.len() == old(out)@.len(),
        forall|i: int| 0 <= i < final(out)@.len() ==> (#[trigger] final(out)@[i].0)@ == (
        old(out)@[i].0)@,
        forall|i: int| 0 <= i < final(out)@.len() && i != k ==> #[trigger] final(out)@[i] == old(
            out,
        )@[i],
        final(out)@[k as int].1@ == description@,
{
    let mut rebuilt: Vec<(String, String)> = Vec::new();
    let mut i: usize = 0;
    while i < out.len()
        invariant
            i <= out@.len(),
            k < out@.len(),
            rebuilt@.len() == i,
            forall|q: int| 0 <= q < i ==> (#[trigger] rebuilt@[q].0)@ == (out@[q].0)@,
            forall|q: int| 0 <= q < i && q != k ==> #[trigger] rebuilt@[q] == out@[q],
            k < i ==> rebuilt@[k as int].1@ == description@,
        decreases out@.len() - i,
    {
        let entry = &out[i];
        if i == k {
            rebuilt.push((entry.0.clone(), description.clone()));
        } else {
            rebuilt.push((entry.0.clone(), entry.1.clone()));
        }
        i = i + 1;
    }
    *out = rebuilt;
}

/// Builds the device directory from a raw enumeration: one entry per
/// distinct name, standing where the name was first seen and carrying
/// the description of its last occurrence, as a map built by repeated
/// insertion would — so the result never holds duplicate device-name
/// keys, every enumerated name appears, and every entry is an
/// enumerated device with one of its own descriptions.
#[verifier::rlimit(100)]
pub fn dedup_ports(raw: &Vec<(String, Option<String>)>) -> (r: Vec<(String, String)>)
    ensures
        forall|i: int, j: int| 0 <= i < j < r@.len() ==> (#[trigger] r@[i].0)@ != (
        #[trigger] r@[j].0)@,
        ports_sourced(r@, raw@),
        ports_cover(r@, raw@),
{
    let mut out: Vec<(String, String)> = Vec::new();
    let mut m: usize = 0;
    while m < raw.len()
        invariant
            m <= raw@.len(),
            forall|i: int, j: int| 0 <= i < j < out@.len() ==> (#[trigger] out@[i].0)@ != (
            #[trigger] out@[j].0)@,
            ports_sourced(out@, raw@),
            ports_cover(out@, raw@.take(m as int)),
        decreases raw@.len() - m,
    {
        let ghost out0 = out@;
        let pair = &raw[m];
        let description = match &pair.1 {
            Some(s) => s.clone(),
            None => String::new(),
        };
        match find_name(&out, &pair.0) {
            Some(k) => {
                replace_description(&mut out, k, description);
                proof {
                    assert(forall|i: int| 0 <= i < out@.len() ==> (#[trigger] out@[i].0)@ == (
                    out0[i].0)@);
                    assert(out@[k as int].0@ == raw@[m as int].0@);
                    assert(out@[k as int].1@ == description_view(raw@[m as int].1));
                    assert(exists|k2: int|
                        0 <= k2 < out@.len() && (#[trigger] out@[k2].0)@ == (raw@[m as int].0)@);
                    assert forall|i: int, j: int| 0 <= i < j < out@.len() implies (
                    #[trigger] out@[i].0)@ != (#[trigger] out@[j].0)@ by {
                        assert((out0[i].0)@ != (out0[j].0)@);
                    }
                    assert(ports_sourced(out@, raw@)) by {
                        assert forall|k2: int| 0 <= k2 < out@.len() implies exists|q: int|
                            0 <= q < raw@.len() && (#[trigger] out@[k2].0)@ == (raw@[q].0)@
                                && out@[k2].1@ == description_view(raw@[q].1) by {
                            if k2 == k {
                                assert((out@[k2].0)@ == (raw@[m as int].0)@ && out@[k2].1@
                                    == description_view(raw@[m as int].1));
                            } else {
                                assert(out@[k2] == out0[k2]);
                                assert(ports_sourced(out0, raw@));
                            }
                        }
                    }
                }
            },
            None => {
                out.push((pair.0.clone(), description));
                proof {
                    assert(out@[out0.len() as int].0@ == raw@[m as int].0@);
                    assert(out@[out0.len() as int].1@ == description_view(raw@[m as int].1));
                    assert(ports_sourced(out@, raw@)) by {
                        assert forall|k: int| 0 <= k < out@.len() implies exists|q: int|
                            0 <= q < raw@.len() && (#[trigger] out@[k].0)@ == (raw@[q].0)@
                                && out@[k].1@ == description_view(raw@[q].1) by {
                            if k < out0.len() {
                                assert(out0[k] == out@[k]);
                                assert(ports_sourced(out0, raw@));
                            } else {
                                assert((out@[k].0)@ == (raw@[m as int].0)@ && out@[k].1@
                                    == description_view(raw@[m as int].1));
                            }
                        }
                    }
                }
            },
        }
        m = m + 1;
        proof {
            assert(ports_cover(out@, raw@.take(m as int))) by {
                let taken = raw@.take(m as int);
                assert forall|q: int| #![trigger taken[q]] 0 <= q < taken.len() implies exists|
                    k: int,
                |
                    0 <= k < out@.len() && (#[trigger] out@[k].0)@ == (taken[q].0)@ by {
                    if q < m - 1 {
                        let prev = raw@.take(m - 1);
                        assert(ports_cover(out@, prev)) by {
                            assert(ports_cover(out0, prev));
                            assert forall|p: int| #![trigger prev[p]] 0 <= p < prev.len()
                                implies exists|k: int|
                                0 <= k < out@.len() && (#[trigger] out@[k].0)@ == (
                                prev[p].0)@ by {
                                let k0 = choose|k: int|
                                    0 <= k < out0.len() && (#[trigger] out0[k].0)@ == (
                                    prev[p].0)@;
                                assert(out@[k0].0@ == (prev[p].0)@);
                            }
                        }
                        assert(prev[q] == taken[q]);
                    } else {
                        assert(taken[q] == raw@[m - 1]);
                    }
                }
            }
        }
    }
    proof {
        assert(raw@.take(m as int) == raw@);
    }
    out
}

/// Finds the entry already carrying this device name, if any.
fn find_name(ports: &Vec<(String, String)>, name: &String) -> (r: Option<usize>)
    ensures
        r matches Some(k) ==> k < ports@.len() && (ports@[k as int].0)@ == name@,
        r is None ==> forall|q: int| 0 <= q < ports@.len() ==> (#[trigger] ports@[q].0)@
            != name@,
{
    let mut k: usize = 0;
    while k < ports.len()
        invariant
            k <= ports@.len(),
            forall|q: int| 0 <= q < k ==> (#[trigger] ports@[q].0)@ != name@,
        decreases ports@.len() - k,
    {
        let entry = &ports[k];
        if entry.0 == *name {
            return Some(k);
        }
        k = k + 1;
    }
    None
}

/// Reads one frame from an open port: polls for available bytes, takes
/// the header first and then whole bursts of payload, abandoning the
/// frame once a quiet gap exceeds [`SERIAL_RX_TIMEOUT_MS`].  A frame is
/// returned only when the gathered bytes match the header exactly; a
/// short or over-long gathering, or a never-started frame, is
/// `Ok(None)` — "no message".  A timeout is never an error: every
/// `Err` is a platform failure, carried under the prefixes the
/// contract names.
fn do_receive(port: &mut serialport::TTYPort) -> (r: Result<Option<Vec<u8>>, String>)
    ensures
        r matches Ok(Some(v)) ==> 1 <= v@.len() <= MAXIMUM_DATA_LEN,
        r matches Err(m) ==> (starts_with_text(m@, "Fail on bytes_to_read: "@)
            || starts_with_text(m@, "Fail on read: "@)),
{
    let mut st = Reassembly::new();
    let mut last_rx = instant_now();
    let mut polls_left: u64 = MAX_RECEIVE_POLLS;
    loop
        invariant
            st.inv(),
        ensures
            st.inv(),
        decreases polls_left,
    {
        if polls_left == 0 {
            break ;
        }
        polls_left = polls_left - 1;
        let available32 = match port_bytes_to_read(port) {
            Ok(a) => a,
            Err(e) => { return Err(e); },
        };
        let available = available32 as usize;
        let timed_out = duration_as_millis(&instant_elapsed(&last_rx)) > SERIAL_RX_TIMEOUT_MS;
        match st.on_poll(available, timed_out) {
            RxStep::ReadHeader => {
                match port_read_chunk(port, 1) {
                    Ok(chunk) => { st.on_header(chunk[0]); },
                    Err(e) => { return Err(e); },
                }
            },
            RxStep::ReadChunk(n) => {
                match port_read_chunk(port, n) {
                    Ok(chunk) => {
                        last_rx = instant_now();
                        if st.on_chunk(&chunk) {
                            break ;
                        }
                    },
                    Err(e) => { return Err(e); },
                }
            },
            RxStep::Finish => {
                break ;
            },
            RxStep::Poll => {},
        }
    }
    Ok(st.finish())
}

/// The serial channel: a device name and, while enabled, the open
/// handle for it.
pub struct SerialBackend {
    port_name: String,
    serial_port: Option<serialport::TTYPort>,
}

impl SerialBackend {
    /// The configured device name.
    pub closed spec fn spec_port_name(&self) -> Seq<char> {
        self.port_name@
    }

    /// Whether a device handle is currently open.
    pub closed spec fn spec_is_open(&self) -> bool {
        self.serial_port is Some
    }

    /// A serial channel for the named device; the device is not opened
    /// until `enable`.
    pub fn new(port_name: &str) -> (r: Self)
        ensures
            r.spec_port_name() == port_name@,
            !r.spec_is_open(),
    {
        SerialBackend { port_name: port_name.to_owned(), serial_port: None }
    }

    /// Asks the platform for the available serial devices: a list of
    /// (name, description) pairs with no two entries sharing a name;
    /// the description is the USB product string when there is one and
    /// empty otherwise.  A platform failure is reported as an error,
    /// never as a partial list.
    pub fn get_available_serial_ports() -> (r: Result<Vec<(String, String)>, String>)
        ensures
            r matches Ok(ports) ==> forall|i: int, j: int|
                0 <= i < j < ports@.len() ==> (#[trigger] ports@[i].0)@ != (
                #[trigger] ports@[j].0)@,
    {
        match available_ports_raw() {
            Ok(raw) => Ok(dedup_ports(&raw)),
            Err(e) => Err(e),
        }
    }

    fn do_send(&mut self, data: &[u8]) -> (r: Result<(), String>)
        requires
            old(self).spec_is_open(),
        ensures
            final(self).spec_port_name() == old(self).spec_port_name(),
            final(self).spec_is_open(),
            data@.len() > MAXIMUM_DATA_LEN ==> r is Err,
            data@.len() <= MAXIMUM_DATA_LEN ==> (r matches Err(m) ==> (starts_with_text(
                m@,
                "Fail on write_all: "@,
            ) || starts_with_text(m@, "Fail on flush: "@))),
    {
        let wire = match encode_frame(data) {
            Ok(w) => w,
            Err(e) => { return Err(e); },
        };
        match &mut self.serial_port {
            Some(port) => {
                match port_write_all(port, &wire) {
                    Ok(()) => port_flush(port),
                    Err(e) => Err(e),
                }
            },
            None => {
                proof {
                    assert(false);
                }
                Err(String::new())
            },
        }
    }
}

impl IOHandler for SerialBackend {
    /// Opens the named device at [`SERIAL_BAUD_RATE`] if it is not open
    /// yet; already open, it is left untouched and the call succeeds.
    /// An open failure leaves the channel closed and reports the cause.
    fn enable(&mut self) -> (r: Result<(), String>)
        ensures
            final(self).spec_port_name() == old(self).spec_port_name(),
            old(self).spec_is_open() ==> r is Ok && final(self).spec_is_open(),
            r is Ok ==> final(self).spec_is_open(),
            r is Err ==> final(self).spec_is_open() == old(self).spec_is_open(),
    {
        if self.serial_port.is_none() {
            match open_port(self.port_name.as_str(), SERIAL_BAUD_RATE) {
                Ok(port) => { self.serial_port = Some(port); },
                Err(e) => { return Err(e); },
            }
        }
        Ok(())
    }

    /// Closes the device handle if one is open (dropping it releases
    /// the device); idempotent.
    fn disable(&mut self)
        ensures
            final(self).spec_port_name() == old(self).spec_port_name(),
            !final(self).spec_is_open(),
    {
        self.serial_port = None;
    }

    /// Sends one frame: a no-op success while the channel is disabled;
    /// on an open channel the payload is framed ([`encode_frame`]),
    /// written whole and flushed.  An over-long payload, a write
    /// failure or a flush failure is reported as an error; nothing is
    /// retried.
    fn send(&mut self, data: &[u8]) -> (r: Result<(), String>)
        ensures
            final(self).spec_port_name() == old(self).spec_port_name(),
            final(self).spec_is_open() == old(self).spec_is_open(),
            !old(self).spec_is_open() ==> r is Ok,
            old(self).spec_is_open() && data@.len() > MAXIMUM_DATA_LEN ==> r is Err,
            data@.len() <= MAXIMUM_DATA_LEN ==> (r matches Err(m) ==> (starts_with_text(
                m@,
                "Fail on write_all: "@,
            ) || starts_with_text(m@, "Fail on flush: "@))),
    {
        if self.serial_port.is_some() {
            self.do_send(data)
        } else {
            Ok(())
        }
    }

    /// Receives one frame: immediately "no message" while the channel
    /// is disabled; on an open channel, runs the reassembly loop
    /// ([`do_receive`]), blocking up to the receive timeout.
    fn receive(&mut self) -> (r: Result<Option<Vec<u8>>, String>)
        ensures
            final(self).spec_port_name() == old(self).spec_port_name(),
            final(self).spec_is_open() == old(self).spec_is_open(),
            !old(self).spec_is_open() ==> (r matches Ok(m) && m is None),
            r matches Ok(Some(v)) ==> 1 <= v@.len() <= MAXIMUM_DATA_LEN,
            r matches Err(m) ==> (starts_with_text(m@, "Fail on bytes_to_read: "@)
                || starts_with_text(m@, "Fail on read: "@)),
    {
        match &mut self.serial_port {
            Some(port) => do_receive(port),
            None => Ok(None),
        }
    }
}

} // verus!
