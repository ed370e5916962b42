//! File-based rendezvous: two processes exchange a UDP port number
//! through advertisement files in a shared directory, without a broker.
//!
//! Each process writes one file named by its own process identifier
//! (in decimal) whose content is its bound UDP port (in decimal).  To
//! meet a peer, a process scans the directory once and consumes the
//! first regular file that is not its own advertisement.  The directory
//! scanning, reading and deleting are the caller's to perform; this
//! module holds the protocol's decisions: which names and contents to
//! write, which entry of a scan to consume, and what its content means.

use vstd::prelude::*;

verus! {

/// ASCII code of the digit `0`.
pub const ASCII_ZERO: u8 = 0x30;

/// ASCII code of the digit `9`.
pub const ASCII_NINE: u8 = 0x39;

/// ASCII code of `+`, the one sign a port number may carry.
pub const ASCII_PLUS: u8 = 0x2b;

/// The decimal form of `n` in ASCII, most significant digit first, no
/// sign and no leading zero (a single `0` for zero itself).
pub open spec fn dec_digits(n: nat) -> Seq<u8>
    decreases n,
{
    if n < 10 {
        seq![(n + ASCII_ZERO) as u8]
    } else {
        dec_digits(n / 10).push((n % 10 + ASCII_ZERO) as u8)
    }
}

/// Whether `s` is a non-empty run of ASCII digits.
pub open spec fn is_digits(s: Seq<u8>) -> bool {
    s.len() >= 1 && forall|i: int| 0 <= i < s.len() ==> ASCII_ZERO <= #[trigger] s[i] <= ASCII_NINE
}

/// The numeric value of an ASCII digit run, most significant first.
pub open spec fn digits_value(s: Seq<u8>) -> int
    decreases s.len(),
{
    if s.len() == 0 {
        0
    } else {
        digits_value(s.drop_last()) * 10 + (s.last() - ASCII_ZERO)
    }
}

/// The digit run of an advertisement's content: everything after the
/// optional leading `+`.
pub open spec fn port_digits(content: Seq<u8>) -> Seq<u8> {
    if content.len() >= 1 && content[0] == ASCII_PLUS {
        content.drop_first()
    } else {
        content
    }
}

/// What parsing an advertisement's content as a port number yields:
/// an optional leading `+`, then at least one digit, and a value of at
/// most 65535; anything else — empty content, a stray sign, any
/// non-digit byte (including every non-ASCII byte), or a too large
/// value — is unparsable.
pub open spec fn parse_port_spec(content: Seq<u8>) -> Option<u16> {
    let digits = port_digits(content);
    if is_digits(digits) && digits_value(digits) <= u16::MAX {
        Some(digits_value(digits) as u16)
    } else {
        None
    }
}

proof fn lemma_digits_value_nonneg(s: Seq<u8>)
    requires
        forall|i: int| 0 <= i < s.len() ==> ASCII_ZERO <= #[trigger] s[i] <= ASCII_NINE,
    ensures
        digits_value(s) >= 0,
    decreases s.len(),
{
    if s.len() > 0 {
        lemma_digits_value_nonneg(s.drop_last());
    }
}

/// Rendering a number and reading the digits back returns the number:
/// the decimal forms used for advertisement names and contents are
/// faithful.
pub proof fn lemma_dec_digits_value(n: nat)
    ensures
        is_digits(dec_digits(n)),
        digits_value(dec_digits(n)) == n,
        dec_digits(n)[0] != ASCII_PLUS,
    decreases n,
{
    if n < 10 {
        let s = seq![(n + ASCII_ZERO) as u8];
        assert(dec_digits(n) =~= s);
        assert(s.drop_last() =~= Seq::<u8>::empty());
        assert(digits_value(Seq::<u8>::empty()) == 0);
        assert(digits_value(s) == (s.last() - ASCII_ZERO));
    } else {
        lemma_dec_digits_value(n / 10);
        let d = dec_digits(n / 10);
        let whole = d.push((n % 10 + ASCII_ZERO) as u8);
        assert(whole.drop_last() =~= d);
        assert(whole.last() == (n % 10 + ASCII_ZERO) as u8);
        vstd::arithmetic::div_mod::lemma_fundamental_div_mod(n as int, 10);
        assert(digits_value(whole) == digits_value(d) * 10 + (n % 10));
    }
}

/// Distinct numbers render to distinct decimal forms; in particular,
/// two rendezvousing processes with distinct identifiers never share an
/// advertisement filename, so removing one's own file on teardown can
/// never remove a peer's.
pub proof fn lemma_dec_digits_injective(a: nat, b: nat)
    requires
        a != b,
    ensures
        dec_digits(a) != dec_digits(b),
{
    lemma_dec_digits_value(a);
    lemma_dec_digits_value(b);
}

/// A rendered port parses back to itself: an advertisement written by
/// this module is always readable by a peer running the same protocol.
pub proof fn lemma_port_round_trip(port: u16)
    ensures
        parse_port_spec(dec_digits(port as nat)) == Some(port),
{
    lemma_dec_digits_value(port as nat);
}

/// Renders `n` in decimal ASCII, most significant digit first.
pub fn render_decimal(n: u32) -> (r: Vec<u8>)
    ensures
        r@ == dec_digits(n as nat),
{
    if n == 0 {
        let mut r: Vec<u8> = Vec::new();
        r.push(ASCII_ZERO);
        assert(r@ =~= dec_digits(0));
        return r;
    }
    let mut backwards: Vec<u8> = Vec::new();
    let mut m: u32 = n;
    proof {
        assert(backwards@.reverse() =~= Seq::<u8>::empty());
        assert(dec_digits(n as nat) + backwards@.reverse() =~= dec_digits(n as nat));
    }
    while m > 0
        invariant
            m > 0 ==> dec_digits(n as nat) == dec_digits(m as nat) + backwards@.reverse(),
            m == 0 ==> dec_digits(n as nat) == backwards@.reverse(),
        decreases m,
    {
        let ghost m0 = m;
        let ghost before = backwards@;
        let digit = (m % 10) as u8 + ASCII_ZERO;
        backwards.push(digit);
        m = m / 10;
        proof {
            assert(backwards@.reverse() =~= seq![digit] + before.reverse());
            if m0 >= 10 {
                assert(dec_digits(m0 as nat) == dec_digits(m as nat).push(digit));
                assert(dec_digits(m as nat).push(digit) + before.reverse() =~= dec_digits(
                    m as nat,
                ) + (seq![digit] + before.reverse()));
            } else {
                assert(dec_digits(m0 as nat) =~= seq![digit]);
            }
        }
    }
    let mut r: Vec<u8> = Vec::new();
    let mut i: usize = backwards.len();
    while i > 0
        invariant
            i <= backwards@.len(),
            r@.len() == backwards@.len() - i,
            forall|k: int| 0 <= k < r@.len() ==> r@[k] == backwards@[backwards@.len() - 1 - k],
        decreases i,
    {
        i = i - 1;
        r.push(backwards[i]);
    }
    assert(r@ =~= backwards@.reverse());
    r
}

/// Parses an advertisement's content as a UDP port number, exactly as
/// [`parse_port_spec`] describes.
pub fn parse_advertised_port(content: &Vec<u8>) -> (r: Option<u16>)
    ensures
        r == parse_port_spec(content@),
{
    let mut i: usize = 0;
    if content.len() >= 1 && content[0] == ASCII_PLUS {
        i = 1;
    }
    let ghost digits = port_digits(content@);
    assert(digits.len() == content@.len() - i);
    assert(forall|k: int| 0 <= k < digits.len() ==> digits[k] == content@[k + i]);
    if i >= content.len() {
        return None;
    }
    let mut value: u32 = 0;
    let mut too_big = false;
    let mut j: usize = i;
    while j < content.len()
        invariant
            i <= j <= content@.len(),
            digits == port_digits(content@),
            digits.len() == content@.len() - i,
            forall|k: int| 0 <= k < digits.len() ==> #[trigger] digits[k] == content@[k + i],
            forall|k: int| 0 <= k < j - i ==> ASCII_ZERO <= #[trigger] digits[k] <= ASCII_NINE,
            !too_big ==> value == digits_value(digits.take(j - i)) && value <= u16::MAX,
            too_big ==> digits_value(digits.take(j - i)) > u16::MAX,
        decreases content@.len() - j,
    {
        let b = content[j];
        assert(digits[j - i] == b);
        if b < ASCII_ZERO || b > ASCII_NINE {
            assert(!(ASCII_ZERO <= digits[j - i] <= ASCII_NINE));
            assert(!is_digits(digits));
            assert(parse_port_spec(content@) is None);
            return None;
        }
        let ghost taken = digits.take(j - i + 1);
        assert(taken.drop_last() =~= digits.take(j - i));
        assert(taken.last() == b);
        if !too_big {
            value = value * 10 + (b - ASCII_ZERO) as u32;
            if value > u16::MAX as u32 {
                too_big = true;
            }
        } else {
            proof {
                lemma_digits_value_nonneg(taken.drop_last());
            }
        }
        j = j + 1;
    }
    assert(digits.take(j - i) =~= digits);
    assert(is_digits(digits));
    if too_big {
        return None;
    }
    Some(value as u16)
}

/// The well-known name of the shared rendezvous directory, to be joined
/// under the platform's temporary-files location by the caller.
pub fn rendezvous_directory_name() -> (r: String)
    ensures
        r@ == "ntir11-rdv"@,
{
    "ntir11-rdv".to_owned()
}

fn bytes_eq(a: &Vec<u8>, b: &Vec<u8>) -> (r: bool)
    ensures
        r == (a@ == b@),
{
    if a.len() != b.len() {
        assert(a@ != b@);
        return false;
    }
    let mut i: usize = 0;
    while i < a.len()
        invariant
            i <= a@.len(),
            a@.len() == b@.len(),
            forall|k: int| 0 <= k < i ==> a@[k] == b@[k],
        decreases a@.len() - i,
    {
        if a[i] != b[i] {
            return false;
        }
        i = i + 1;
    }
    assert(a@ =~= b@);
    true
}

/// One entry of a directory scan, as the caller saw it: the bare file
/// name, whether it is a regular file, and its content.  An entry whose
/// content could not be read is simply left out of the scan, as the
/// protocol skips it.
pub struct DirEntry {
    pub name: Vec<u8>,
    pub is_file: bool,
    pub content: Vec<u8>,
}

/// The mathematical form of a [`DirEntry`].
pub ghost struct DirEntryView {
    pub name: Seq<u8>,
    pub is_file: bool,
    pub content: Seq<u8>,
}

impl View for DirEntry {
    type V = DirEntryView;

    open spec fn view(&self) -> DirEntryView {
        DirEntryView { name: self.name@, is_file: self.is_file, content: self.content@ }
    }
}

/// Whether a scanned entry is a peer's advertisement in the eyes of a
/// process whose own advertisement is named `own`: a regular file under
/// any other name.
pub open spec fn is_peer_entry(e: DirEntryView, own: Seq<u8>) -> bool {
    e.is_file && e.name != own
}

/// The decision of one rendezvous scan: which entry to consume
/// (delete), if any, and the peer port its content advertised, if it
/// parsed.
pub struct MeetOutcome {
    pub consumed: Option<usize>,
    pub peer_port: Option<u16>,
}

/// The advertisement entry that a process with identifier `pid` bound
/// to `port` writes; used to state the rendezvous laws.
pub open spec fn advertisement_entry(pid: u32, port: u16) -> DirEntryView {
    DirEntryView {
        name: dec_digits(pid as nat),
        is_file: true,
        content: dec_digits(port as nat),
    }
}

/// One process's side of the rendezvous protocol: its own identifier
/// and the UDP port it advertises.  The caller performs the file
/// operations this type decides on: on construction it writes
/// [`Self::advertisement_content`] to a file named
/// [`Self::advertisement_filename`] in the shared directory
/// ([`rendezvous_directory_name`] under the temporary-files location),
/// and on teardown — normal or early — it removes exactly that file.
pub struct RendezVous {
    process_id: u32,
    local_udp_port: u16,
}

impl RendezVous {
    pub closed spec fn spec_process_id(&self) -> u32 {
        self.process_id
    }

    pub closed spec fn spec_local_udp_port(&self) -> u16 {
        self.local_udp_port
    }

    /// A new advertiser for the process with this identifier, bound to
    /// this local UDP port.
    pub fn new(process_id: u32, local_udp_port: u16) -> (r: Self)
        ensures
            r.spec_process_id() == process_id,
            r.spec_local_udp_port() == local_udp_port,
    {
        RendezVous { process_id, local_udp_port }
    }

    /// The name of this process's advertisement file: its identifier in
    /// decimal.  Teardown must remove exactly the file of this name.
    pub fn advertisement_filename(&self) -> (r: Vec<u8>)
        ensures
            r@ == dec_digits(self.spec_process_id() as nat),
    {
        render_decimal(self.process_id)
    }

    /// What the advertisement file holds: the local UDP port in
    /// decimal.
    pub fn advertisement_content(&self) -> (r: Vec<u8>)
        ensures
            r@ == dec_digits(self.spec_local_udp_port() as nat),
    {
        render_decimal(self.local_udp_port as u32)
    }

    /// One rendezvous scan over the entries the caller read from the
    /// shared directory, in the order the caller listed them: the first
    /// regular file that is not this process's own advertisement is
    /// consumed — the caller must delete it, first reader wins — and
    /// its content is read as the peer's port.  With no such entry, or
    /// with unparsable content (the entry is still consumed), there is
    /// no peer yet.
    pub fn try_to_meet(&self, entries: &Vec<DirEntry>) -> (r: MeetOutcome)
        ensures
            r.consumed matches Some(i) ==> {
                &&& i < entries@.len()
                &&& is_peer_entry(entries@[i as int]@, dec_digits(self.spec_process_id() as nat))
                &&& forall|k: int| 0 <= k < i ==> !is_peer_entry(
                    #[trigger] entries@[k]@,
                    dec_digits(self.spec_process_id() as nat),
                )
                &&& r.peer_port == parse_port_spec(entries@[i as int]@.content)
            },
            r.consumed is None ==> {
                &&& forall|k: int| 0 <= k < entries@.len() ==> !is_peer_entry(
                    #[trigger] entries@[k]@,
                    dec_digits(self.spec_process_id() as nat),
                )
                &&& r.peer_port is None
            },
    {
        let own = self.advertisement_filename();
        let mut i: usize = 0;
        while i < entries.len()
            invariant
                i <= entries@.len(),
                own@ == dec_digits(self.spec_process_id() as nat),
                forall|k: int| 0 <= k < i ==> !is_peer_entry(#[trigger] entries@[k]@, own@),
            decreases entries@.len() - i,
        {
            let e = &entries[i];
            if e.is_file && !bytes_eq(&e.name, &own) {
                let port = parse_advertised_port(&e.content);
                return MeetOutcome { consumed: Some(i), peer_port: port };
            }
            i = i + 1;
        }
        MeetOutcome { consumed: None, peer_port: None }
    }
}

/// Pairwise rendezvous law.  For two advertisers with distinct process
/// identifiers, the other's advertisement file is a peer entry — a scan
/// that sees it consumes it and reads back exactly the port the peer
/// advertised — while one's own file never is, so a scan that finds
/// only one's own advertisement reports no peer.  Consumption is
/// one-shot: the consumed file is deleted, and a later scan of the
/// remaining entries falls under the second clause until the peer
/// advertises again.
pub proof fn lemma_rendezvous_pair(pid_a: u32, port_a: u16, pid_b: u32, port_b: u16)
    requires
        pid_a != pid_b,
    ensures
        is_peer_entry(advertisement_entry(pid_b, port_b), dec_digits(pid_a as nat)),
        parse_port_spec(advertisement_entry(pid_b, port_b).content) == Some(port_b),
        !is_peer_entry(advertisement_entry(pid_a, port_a), dec_digits(pid_a as nat)),
{
    lemma_dec_digits_injective(pid_a as nat, pid_b as nat);
    lemma_port_round_trip(port_b);
}

} // verus!
