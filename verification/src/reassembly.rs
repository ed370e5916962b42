//! Receive-side reassembly of one frame from a raw byte stream.
//!
//! A frame arrives as a 1-byte length header followed by payload bytes,
//! possibly spread over several bursts.  The [`Reassembly`] machine holds
//! the state of one `receive` call: the declared payload length (0 while
//! the header has not been read) and the payload bytes gathered so far.
//! The machine is created fresh for every call and discarded when the
//! call returns, so a partial frame never leaks into the next call.
//!
//! [`receive_bursts`] runs the machine over a described delivery
//! schedule; the laws at the bottom of this module are proved about it.

use vstd::prelude::*;

verus! {

use crate::MAXIMUM_DATA_LEN;
use crate::codec::wire_of;

/// The mathematical state of the reassembly machine: the declared
/// payload length (`0` means the header has not been read yet) and the
/// payload bytes gathered so far.
pub ghost struct RxView {
    pub expected: nat,
    pub buffer: Seq<u8>,
}

/// What the reassembly loop must do next, decided from one poll of the
/// byte source.
#[derive(Debug, PartialEq, Eq, Structural)]
pub enum RxStep {
    /// Read exactly one byte and hand it to [`Reassembly::on_header`].
    ReadHeader,
    /// Read this many bytes and hand them to [`Reassembly::on_chunk`].
    ReadChunk(usize),
    /// The call is over: take the result from [`Reassembly::finish`].
    Finish,
    /// Nothing to do yet: poll again.
    Poll,
}

/// The decision taken on one poll: with bytes available, read the header
/// first and payload after; with none, give up either immediately (no
/// header yet, so no frame is in flight) or once the gap since the last
/// byte has exceeded the receive timeout.
pub open spec fn poll_step(v: RxView, available: usize, timed_out: bool) -> RxStep {
    if available > 0 {
        if v.expected == 0 {
            RxStep::ReadHeader
        } else {
            RxStep::ReadChunk(available)
        }
    } else if v.expected == 0 || timed_out {
        RxStep::Finish
    } else {
        RxStep::Poll
    }
}

/// The result of a finished call: the gathered bytes form a frame only
/// if they are non-empty and exactly as many as the header declared;
/// anything else is "no message".
pub open spec fn finish_model(expected: nat, buffer: Seq<u8>) -> Option<Seq<u8>> {
    if buffer.len() > 0 && buffer.len() == expected {
        Some(buffer)
    } else {
        None
    }
}

/// Reassembly state for a single `receive` call.
pub struct Reassembly {
    expected_len: usize,
    buffer: Vec<u8>,
}

impl View for Reassembly {
    type V = RxView;

    closed spec fn view(&self) -> RxView {
        RxView { expected: self.expected_len as nat, buffer: self.buffer@ }
    }
}

impl Reassembly {
    /// The header fits one byte, so the declared length never exceeds
    /// [`MAXIMUM_DATA_LEN`]; and bytes are gathered only once a header
    /// has been read.
    pub open spec fn inv(self) -> bool {
        &&& self@.expected <= MAXIMUM_DATA_LEN
        &&& self@.expected == 0 ==> self@.buffer.len() == 0
    }

    /// Fresh state: no header read, nothing gathered.
    pub fn new() -> (r: Self)
        ensures
            r@.expected == 0,
            r@.buffer == Seq::<u8>::empty(),
            r.inv(),
    {
        Reassembly { expected_len: 0, buffer: Vec::new() }
    }

    /// Decides the next step from what one poll of the byte source saw.
    pub fn on_poll(&self, available: usize, timed_out: bool) -> (s: RxStep)
        ensures
            s == poll_step(self@, available, timed_out),
    {
        if available > 0 {
            if self.expected_len == 0 {
                RxStep::ReadHeader
            } else {
                RxStep::ReadChunk(available)
            }
        } else if self.expected_len == 0 || timed_out {
            RxStep::Finish
        } else {
            RxStep::Poll
        }
    }

    /// Records the length header.  A header of 0 leaves the machine
    /// still waiting for a header: the wire format cannot distinguish an
    /// empty frame from no frame, so a 0 header yields "no message".
    pub fn on_header(&mut self, header: u8)
        requires
            old(self)@.expected == 0,
            old(self).inv(),
        ensures
            final(self)@.expected == header as nat,
            final(self)@.buffer == old(self)@.buffer,
            final(self).inv(),
    {
        self.expected_len = header as usize;
    }

    /// Appends one burst of payload bytes; reports whether the frame is
    /// complete, that is, whether at least as many bytes as declared
    /// have been gathered.
    pub fn on_chunk(&mut self, chunk: &Vec<u8>) -> (complete: bool)
        requires
            old(self)@.expected >= 1,
            old(self).inv(),
        ensures
            final(self)@.expected == old(self)@.expected,
            final(self)@.buffer == old(self)@.buffer + chunk@,
            complete == (final(self)@.buffer.len() >= final(self)@.expected),
            final(self).inv(),
    {
        let ghost buffer0 = self.buffer@;
        let mut i: usize = 0;
        while i < chunk.len()
            invariant
                i <= chunk@.len(),
                self.buffer@ == buffer0 + chunk@.take(i as int),
                self.expected_len == old(self)@.expected,
            decreases chunk@.len() - i,
        {
            self.buffer.push(chunk[i]);
            i = i + 1;
        }
        assert(chunk@.take(chunk@.len() as int) == chunk@);
        self.buffer.len() >= self.expected_len
    }

    /// Ends the call: the gathered bytes are a frame exactly when their
    /// count is non-zero and equals the declared length; an over-long or
    /// short gathering is discarded as "no message".
    pub fn finish(self) -> (r: Option<Vec<u8>>)
        ensures
            r matches Some(v) ==> finish_model(self@.expected, self@.buffer) == Some(v@),
            r is None ==> finish_model(self@.expected, self@.buffer) is None,
    {
        if self.buffer.len() > 0 && self.buffer.len() == self.expected_len {
            Some(self.buffer)
        } else {
            None
        }
    }
}

/// One burst of a delivery schedule: bytes that the byte source shows
/// together at a poll.  `long_gap_before` says whether the quiet time
/// before these bytes outlasted the receive timeout; when it is false
/// the bytes are already waiting at the machine's next poll.
pub struct Burst {
    pub long_gap_before: bool,
    pub bytes: Vec<u8>,
}

/// The mathematical form of a [`Burst`].
pub ghost struct BurstView {
    pub long_gap_before: bool,
    pub bytes: Seq<u8>,
}

impl View for Burst {
    type V = BurstView;

    open spec fn view(&self) -> BurstView {
        BurstView { long_gap_before: self.long_gap_before, bytes: self.bytes@ }
    }
}

pub open spec fn burst_views(bs: Seq<Burst>) -> Seq<BurstView> {
    bs.map_values(|b: Burst| b@)
}

/// What the reassembly machine computes from a mid-call state onward,
/// given the bytes still waiting at the source (`pending`) and the
/// bursts yet to arrive (`rest`).  Mirrors [`poll_step`]: a header byte
/// is taken alone, payload is taken a whole burst at a time, a quiet
/// poll ends the call when no header has been read or the gap was long.
pub open spec fn run_from(
    expected: nat,
    buffer: Seq<u8>,
    pending: Seq<u8>,
    rest: Seq<BurstView>,
) -> Option<Seq<u8>>
    decreases rest.len(), pending.len(),
{
    if pending.len() > 0 {
        if expected == 0 {
            run_from(pending[0] as nat, buffer, pending.drop_first(), rest)
        } else {
            let grown = buffer + pending;
            if grown.len() >= expected {
                finish_model(expected, grown)
            } else {
                run_from(expected, grown, Seq::<u8>::empty(), rest)
            }
        }
    } else if rest.len() == 0 || rest[0].long_gap_before {
        finish_model(expected, buffer)
    } else {
        run_from(expected, buffer, rest[0].bytes, rest.drop_first())
    }
}

/// The outcome of one `receive` call fed by the given bursts, starting
/// from a fresh machine.
pub open spec fn bursts_outcome(bs: Seq<BurstView>) -> Option<Seq<u8>> {
    run_from(0, Seq::<u8>::empty(), Seq::<u8>::empty(), bs)
}

fn copy_bytes(v: &Vec<u8>) -> (r: Vec<u8>)
    ensures
        r@ == v@,
{
    let mut r: Vec<u8> = Vec::new();
    let mut i: usize = 0;
    while i < v.len()
        invariant
            i <= v@.len(),
            r@ == v@.take(i as int),
        decreases v@.len() - i,
    {
        r.push(v[i]);
        i = i + 1;
    }
    assert(v@.take(v@.len() as int) == v@);
    r
}

/// Runs one whole `receive` call over a described delivery schedule:
/// the bursts arrive in order, and between two bursts the source is
/// quiet.  Returns the reassembled frame, or `None` when the header was
/// missing, the frame stayed incomplete past a long gap, or a burst
/// overshot the declared length.
pub fn receive_bursts(bursts: &Vec<Burst>) -> (r: Option<Vec<u8>>)
    ensures
        r matches Some(v) ==> bursts_outcome(burst_views(bursts@)) == Some(v@),
        r is None ==> bursts_outcome(burst_views(bursts@)) is None,
{
    let ghost all = burst_views(bursts@);
    let mut st = Reassembly::new();
    let mut pending: Vec<u8> = Vec::new();
    let mut i: usize = 0;
    proof {
        assert(all.skip(0) =~= all);
    }
    loop
        invariant_except_break
            run_from(st@.expected, st@.buffer, pending@, all.skip(i as int)) == bursts_outcome(
                all,
            ),
        invariant
            st.inv(),
            i <= bursts@.len(),
            all == burst_views(bursts@),
        ensures
            finish_model(st@.expected, st@.buffer) == bursts_outcome(all),
        decreases bursts@.len() - i, pending@.len(),
    {
        if pending.len() == 0 {
            if i >= bursts.len() {
                assert(all.skip(i as int).len() == 0);
                break ;
            }
            assert(all.skip(i as int)[0] == bursts@[i as int]@);
            if bursts[i].long_gap_before {
                break ;
            }
            pending = copy_bytes(&bursts[i].bytes);
            i = i + 1;
            assert(all.skip(i as int - 1).drop_first() =~= all.skip(i as int));
        } else {
            match st.on_poll(pending.len(), false) {
                RxStep::ReadHeader => {
                    let ghost p0 = pending@;
                    let h = pending.remove(0);
                    assert(pending@ =~= p0.drop_first());
                    st.on_header(h);
                },
                RxStep::ReadChunk(_n) => {
                    let complete = st.on_chunk(&pending);
                    pending.clear();
                    if complete {
                        break ;
                    }
                },
                // With bytes pending, a poll decides to read, never to
                // wait or finish.
                RxStep::Finish => {
                    assert(false);
                    break ;
                },
                RxStep::Poll => {
                    assert(false);
                },
            }
        }
    }
    st.finish()
}

/// Shorthand for building one burst of a delivery schedule in a
/// specification.
pub open spec fn burst(long_gap_before: bool, bytes: Seq<u8>) -> BurstView {
    BurstView { long_gap_before, bytes }
}

/// The bytes a schedule delivers, in order.
pub open spec fn delivered_bytes(rest: Seq<BurstView>) -> Seq<u8>
    decreases rest.len(),
{
    if rest.len() == 0 {
        Seq::<u8>::empty()
    } else {
        rest[0].bytes + delivered_bytes(rest.drop_first())
    }
}

proof fn lemma_delivered_nonempty(rest: Seq<BurstView>)
    requires
        rest.len() >= 1,
        forall|k: int| 0 <= k < rest.len() ==> #[trigger] rest[k].bytes.len() >= 1,
    ensures
        delivered_bytes(rest).len() >= 1,
{
    assert(delivered_bytes(rest) == rest[0].bytes + delivered_bytes(rest.drop_first()));
}

/// While a frame is incomplete, feeding it every following burst (none
/// empty, none after a long gap) completes it with exactly the bytes
/// those bursts deliver.
proof fn lemma_accumulate(expected: nat, buffer: Seq<u8>, rest: Seq<BurstView>)
    requires
        1 <= expected,
        buffer.len() < expected,
        rest.len() >= 1,
        forall|k: int| 0 <= k < rest.len() ==> !(#[trigger] rest[k]).long_gap_before
            && rest[k].bytes.len() >= 1,
        buffer.len() + delivered_bytes(rest).len() == expected,
    ensures
        run_from(expected, buffer, Seq::<u8>::empty(), rest) == Some(buffer + delivered_bytes(rest)),
    decreases rest.len(),
{
    let b0 = rest[0].bytes;
    let tail = rest.drop_first();
    let grown = buffer + b0;
    assert(delivered_bytes(rest) == b0 + delivered_bytes(tail));
    if tail.len() == 0 {
        assert(delivered_bytes(tail).len() == 0);
        assert(grown.len() == expected);
        assert(run_from(expected, buffer, b0, tail) == finish_model(expected, grown));
        assert(buffer + delivered_bytes(rest) =~= grown);
    } else {
        assert(forall|k: int| 0 <= k < tail.len() ==> tail[k] == rest[k + 1]);
        lemma_delivered_nonempty(tail);
        assert(grown.len() < expected);
        lemma_accumulate(expected, grown, tail);
        assert(grown + delivered_bytes(tail) =~= buffer + delivered_bytes(rest));
    }
}

/// Round-trip law: a frame that [`crate::codec::encode_frame`] produced
/// for a non-empty payload, delivered whole in one burst, is
/// reassembled to exactly that payload.  (An empty payload encodes to a
/// bare 0 header, which the receive side reports as "no message": the
/// wire format cannot tell an empty frame from no frame.)
pub proof fn lemma_round_trip(payload: Seq<u8>)
    requires
        1 <= payload.len() <= MAXIMUM_DATA_LEN,
    ensures
        bursts_outcome(seq![burst(false, wire_of(payload))]) == Some(payload),
{
    let w = wire_of(payload);
    let bs = seq![burst(false, w)];
    let rest = bs.drop_first();
    assert(rest.len() == 0);
    assert(bursts_outcome(bs) == run_from(0, Seq::<u8>::empty(), w, rest));
    assert(w[0] == payload.len() as u8);
    let expected = (payload.len() as u8) as nat;
    assert(expected == payload.len());
    assert(w.drop_first() =~= payload);
    assert(run_from(0, Seq::<u8>::empty(), w, rest) == run_from(expected, Seq::<u8>::empty(), payload, rest));
    assert(Seq::<u8>::empty() + payload =~= payload);
    assert(run_from(expected, Seq::<u8>::empty(), payload, rest) == finish_model(expected, payload));
}

/// The one exception to the round-trip law: an empty payload encodes to
/// a bare 0 header, which the receive side cannot tell from no frame in
/// flight, so it reads back as "no message" rather than an empty frame.
pub proof fn lemma_empty_payload_no_message()
    ensures
        bursts_outcome(seq![burst(false, wire_of(Seq::<u8>::empty()))]) is None,
{
    let w = wire_of(Seq::<u8>::empty());
    let bs = seq![burst(false, w)];
    let rest = bs.drop_first();
    assert(rest.len() == 0);
    assert(bursts_outcome(bs) == run_from(0, Seq::<u8>::empty(), w, rest));
    assert(w[0] == 0);
    assert(w.drop_first() =~= Seq::<u8>::empty());
    assert(run_from(0, Seq::<u8>::empty(), w, rest) == run_from(
        0,
        Seq::<u8>::empty(),
        Seq::<u8>::empty(),
        rest,
    ));
}

/// Chunking law: however a frame's wire bytes are cut into bursts, as
/// long as no burst is empty and every gap between bursts stays under
/// the receive timeout, the frame is reassembled to its payload.
pub proof fn lemma_chunked_delivery(payload: Seq<u8>, bs: Seq<BurstView>)
    requires
        1 <= payload.len() <= MAXIMUM_DATA_LEN,
        bs.len() >= 1,
        forall|k: int| 0 <= k < bs.len() ==> !(#[trigger] bs[k]).long_gap_before
            && bs[k].bytes.len() >= 1,
        delivered_bytes(bs) == wire_of(payload),
    ensures
        bursts_outcome(bs) == Some(payload),
{
    let w = wire_of(payload);
    let b0 = bs[0].bytes;
    let rest = bs.drop_first();
    assert(forall|k: int| 0 <= k < rest.len() ==> rest[k] == bs[k + 1]);
    assert(delivered_bytes(bs) == b0 + delivered_bytes(rest));
    assert(b0[0] == w[0]);
    assert(w[0] == payload.len() as u8);
    let expected = (payload.len() as u8) as nat;
    assert(expected == payload.len());
    let p = b0.drop_first();
    assert(bursts_outcome(bs) == run_from(0, Seq::<u8>::empty(), b0, rest));
    assert(run_from(0, Seq::<u8>::empty(), b0, rest) == run_from(expected, Seq::<u8>::empty(), p, rest));
    assert(p + delivered_bytes(rest) =~= w.drop_first());
    assert(w.drop_first() =~= payload);
    if p.len() == 0 {
        assert(rest.len() >= 1) by {
            if rest.len() == 0 {
                assert(delivered_bytes(rest).len() == 0);
                assert(payload.len() == 0);
            }
        }
        lemma_accumulate(expected, Seq::<u8>::empty(), rest);
        assert(Seq::<u8>::empty() + delivered_bytes(rest) =~= payload);
    } else {
        let grown = Seq::<u8>::empty() + p;
        assert(grown =~= p);
        if rest.len() == 0 {
            assert(delivered_bytes(rest).len() == 0);
            assert(p =~= payload);
            assert(run_from(expected, Seq::<u8>::empty(), p, rest) == finish_model(expected, p));
        } else {
            lemma_delivered_nonempty(rest);
            assert(p.len() < expected);
            lemma_accumulate(expected, p, rest);
            assert(p + delivered_bytes(rest) =~= payload);
        }
    }
}

/// Timeout law: once a partial frame (header read, fewer payload bytes
/// than declared) is followed by a quiet gap longer than the receive
/// timeout, the call ends with "no message" — not an error — whatever
/// bytes arrive later; the partial bytes are confined to the discarded
/// machine of that one call.
pub proof fn lemma_gap_abandons_partial(h: u8, partial: Seq<u8>, rest: Seq<BurstView>)
    requires
        1 <= h,
        partial.len() < h,
        rest.len() >= 1,
        rest[0].long_gap_before,
    ensures
        bursts_outcome(seq![burst(false, seq![h] + partial)] + rest) is None,
{
    let first = seq![h] + partial;
    let bs = seq![burst(false, first)] + rest;
    assert(bs[0] == burst(false, first));
    assert(bs.drop_first() =~= rest);
    assert(bursts_outcome(bs) == run_from(0, Seq::<u8>::empty(), first, rest));
    assert(first[0] == h);
    assert(first.drop_first() =~= partial);
    assert(run_from(0, Seq::<u8>::empty(), first, rest) == run_from(h as nat, Seq::<u8>::empty(), partial, rest));
    if partial.len() == 0 {
        assert(partial =~= Seq::<u8>::empty());
        assert(run_from(h as nat, Seq::<u8>::empty(), partial, rest) == finish_model(h as nat, Seq::<u8>::empty()));
    } else {
        let grown = Seq::<u8>::empty() + partial;
        assert(grown =~= partial);
        assert(run_from(h as nat, Seq::<u8>::empty(), partial, rest) == run_from(
            h as nat,
            partial,
            Seq::<u8>::empty(),
            rest,
        ));
        assert(run_from(h as nat, partial, Seq::<u8>::empty(), rest) == finish_model(h as nat, partial));
    }
}

/// No-wait law: when the source never shows a byte — the schedule is
/// empty or its first bytes come only after a long gap — the call
/// reports "no message" at once instead of blocking.
pub proof fn lemma_no_bytes_no_message(bs: Seq<BurstView>)
    requires
        bs.len() == 0 || bs[0].long_gap_before,
    ensures
        bursts_outcome(bs) is None,
{
}

} // verus!
