use crate::bits::{b2B, bits_of, octets_for};
use crate::error::{Error, TransferError};
use crate::packet::{
    assemblePacket, assembled, idle_fill, idle_packet, packet_count, packetize, PACKET_SIZE,
};
use bit_vec::BitVec;
use std::sync::mpsc::{Receiver, Sender, TryRecvError};
use vstd::prelude::*;

verus! {

/// USB vendor identifier of the device.
pub const VENDOR_ID: u16 = 0x59e3;

/// USB product identifier of the device.
pub const PRODUCT_ID: u16 = 0xf000;

/// Address of the bulk-OUT endpoint.
pub const OUT_ENDPOINT: u8 = 0x02;

/// Address of the bulk-IN endpoint.
pub const IN_ENDPOINT: u8 = 0x81;

/// The number of transfers kept in flight in each direction.
pub const WINDOW: usize = 8;

/// `std::sync::mpsc::Sender`, the producing end of a queue. Opaque: what a
/// queue holds depends on the thread at its other end.
#[verifier::external_type_specification]
#[verifier::external_body]
#[verifier::reject_recursive_types(T)]
pub struct ExSender<T>(Sender<T>);

/// `std::sync::mpsc::Receiver`, the consuming end of a queue. Opaque, as the
/// producing end is.
#[verifier::external_type_specification]
#[verifier::external_body]
#[verifier::reject_recursive_types(T)]
pub struct ExReceiver<T>(Receiver<T>);

/// What a poll of the outbound queue found.
#[derive(Clone, Debug)]
pub enum Polled {
    /// A buffer was waiting.
    Ready(Vec<u8>),
    /// Nothing is queued at the moment.
    Empty,
    /// Nothing is queued and the producer is gone.
    Closed,
}

/// What became of a buffer offered to a queue.
#[derive(Clone, Copy, Debug, PartialEq, Eq, Structural)]
pub enum Handoff {
    /// The queue took the buffer.
    Delivered,
    /// The consumer is gone; the buffer was dropped.
    ConsumerGone,
}

/// `Receiver::try_recv`: takes a pending buffer off the queue without
/// blocking. Which of the three outcomes comes back depends on the producer,
/// so nothing is claimed of it.
#[verifier::external_body]
fn poll(queue: &Receiver<Vec<u8>>) -> Polled {
    match queue.try_recv() {
        Ok(buffer) => Polled::Ready(buffer),
        Err(TryRecvError::Empty) => Polled::Empty,
        Err(TryRecvError::Disconnected) => Polled::Closed,
    }
}

/// `Sender::send`: hands a buffer to the queue, which fails only when the
/// receiving end has been dropped. Which outcome comes back depends on the
/// consumer, so nothing is claimed of it.
#[verifier::external_body]
fn offer(queue: &Sender<Vec<u8>>, buffer: Vec<u8>) -> Handoff {
    match queue.send(buffer) {
        Ok(()) => Handoff::Delivered,
        Err(_) => Handoff::ConsumerGone,
    }
}

/// The configuration of one streaming session. The polarity is bound when the
/// session is made and cannot be changed afterwards, so every packet of a
/// session and the device's own setting follow the same convention.
#[derive(Clone, Copy, Debug, PartialEq, Eq, Structural)]
pub struct Session {
    polarity: bool,
}

/// The packet that an outbound cycle leaves in a transfer buffer that held
/// `before`: a queued buffer of at most one packet is assembled at its head
/// and the bytes behind it stay as they were; with nothing to send, or a
/// buffer too long to send, the whole packet is idle.
pub open spec fn outbound_packet(before: Seq<u8>, polarity: bool, polled: Polled) -> Seq<u8> {
    match polled {
        Polled::Ready(buffer) if buffer@.len() <= PACKET_SIZE => assembled(
            before,
            buffer@,
            polarity,
        ),
        _ => idle_packet(polarity),
    }
}

/// What an outbound cycle reports: a queued buffer longer than a packet is an
/// error; anything else, an empty or closed queue included, keeps the loop
/// running.
pub open spec fn outbound_verdict(polled: Polled) -> Result<bool, Error> {
    match polled {
        Polled::Ready(buffer) if buffer@.len() > PACKET_SIZE => Err(Error::PacketOverflow),
        _ => Ok(true),
    }
}

/// Whether the inbound loop goes on after a hand-off: it stops when nobody
/// is listening any more.
pub open spec fn inbound_verdict(handoff: Handoff) -> bool {
    handoff == Handoff::Delivered
}

impl Session {
    /// The polarity this session was made with.
    pub closed spec fn spec_polarity(&self) -> bool {
        self.polarity
    }

    /// Binds the polarity for a session: `true` for the idle-high convention,
    /// `false` for the inverted, idle-low one.
    pub fn new(polarity: bool) -> (s: Session)
        ensures
            s.polarity() == polarity,
    {
        Session { polarity }
    }

    /// The polarity this session was made with.
    #[verifier::when_used_as_spec(spec_polarity)]
    pub fn polarity(&self) -> (p: bool)
        ensures
            p == self.polarity(),
    {
        self.polarity
    }

    /// The value for the device's pin-control register: the inversion bit
    /// `0x40` for the idle-low convention, nothing set for idle-high.
    pub fn inversion_setting(&self) -> (value: u16)
        ensures
            value == (if self.polarity() { 0x00u16 } else { 0x40u16 }),
    {
        if self.polarity {
            0x00
        } else {
            0x40
        }
    }

    /// One outbound cycle on what a poll of the queue found.
    ///
    /// A queued buffer is assembled at the head of the transfer buffer `y`.
    /// Where it is shorter than a packet, the bytes of `y` behind it are not
    /// written: they stay as the transport handed them over. With nothing
    /// queued, whether the queue is empty or closed, `y` is filled with the
    /// idle pattern. A buffer longer than a packet is reported, and `y` is
    /// filled with the idle pattern in its place.
    pub fn outbound_fill(&self, y: &mut [u8; PACKET_SIZE], polled: Polled) -> (r: Result<
        bool,
        Error,
    >)
        ensures
            final(y)@ == outbound_packet(old(y)@, self.polarity(), polled),
            r == outbound_verdict(polled),
            !(polled is Ready) ==> forall|i: int|
                0 <= i < PACKET_SIZE ==> final(y)@[i] == (if self.polarity() {
                    0xFFu8
                } else {
                    0x00u8
                }),
    {
        match polled {
            Polled::Ready(buffer) => {
                match assemblePacket(y, buffer.as_slice(), self.polarity) {
                    Ok(()) => Ok(true),
                    Err(e) => {
                        idle_fill(y, self.polarity);
                        Err(e)
                    },
                }
            },
            Polled::Empty => {
                idle_fill(y, self.polarity);
                Ok(true)
            },
            Polled::Closed => {
                idle_fill(y, self.polarity);
                Ok(true)
            },
        }
    }

    /// One outbound cycle: polls `queue` without blocking and fills the
    /// transfer buffer `y` from what the poll found.
    pub fn outbound_cycle(&self, queue: &Receiver<Vec<u8>>, y: &mut [u8; PACKET_SIZE]) -> (r:
        Result<bool, Error>)
        ensures
            exists|polled: Polled|
                final(y)@ == outbound_packet(old(y)@, self.polarity(), polled) && r
                    == outbound_verdict(polled),
            r is Ok ==> r->Ok_0,
    {
        let polled = poll(queue);
        self.outbound_fill(y, polled)
    }
}

/// Whether the outbound loop goes on after a cycle. It always does: a cycle
/// that reported an error has left the idle packet in the transfer buffer,
/// and only the transport ends this loop.
pub fn outbound_go_on(r: Result<bool, Error>) -> (go_on: bool)
    ensures
        go_on == (r is Err || r->Ok_0),
{
    match r {
        Ok(go_on) => go_on,
        Err(_) => true,
    }
}

/// Whether the inbound loop goes on after a cycle: only after a buffer was
/// delivered. A failed transfer ends the loop, as a consumer that is gone
/// does.
pub fn inbound_go_on(r: Result<bool, Error>) -> (go_on: bool)
    ensures
        go_on == (r == Ok::<bool, Error>(true)),
{
    match r {
        Ok(go_on) => go_on,
        Err(_) => false,
    }
}

/// Whether the inbound loop goes on after a hand-off to the inbound queue.
pub fn inbound_continue(handoff: Handoff) -> (go_on: bool)
    ensures
        go_on == inbound_verdict(handoff),
{
    match handoff {
        Handoff::Delivered => true,
        Handoff::ConsumerGone => false,
    }
}

/// One inbound cycle on what a transfer brought. A failed transfer is passed
/// on as an error and nothing is forwarded. A received buffer is offered to
/// `queue`; the loop goes on unless the consumer is gone.
pub fn inbound_cycle(queue: &Sender<Vec<u8>>, received: Result<Vec<u8>, TransferError>) -> (r:
    Result<bool, Error>)
    ensures
        received is Err ==> r == Err::<bool, Error>(Error::Transfer(received->Err_0)),
        received is Ok ==> r is Ok,
{
    match received {
        Ok(buffer) => Ok(inbound_continue(offer(queue, buffer))),
        Err(e) => Err(Error::Transfer(e)),
    }
}

/// Packs `syn` into bytes, cuts them into packets and offers them to `c` in
/// order. `Ok(n)`: the queue took all `n` packets of the stream. `Err(k)`:
/// the consumer was gone once `k` packets were taken; the rest is dropped.
#[allow(non_snake_case)]
pub fn sendBitstream(syn: BitVec, c: Sender<Vec<u8>>) -> (r: Result<usize, usize>)
    ensures
        r is Ok ==> r->Ok_0 == packet_count(octets_for(bits_of(syn).len())),
        r is Err ==> r->Err_0 < packet_count(octets_for(bits_of(syn).len())),
        bits_of(syn).len() == 0 ==> r == Ok::<usize, usize>(0),
{
    let bytes = b2B(syn);
    let packets = packetize(bytes.as_slice());
    let total = packets.len();
    let mut sent: usize = 0;
    for packet in it: packets
        invariant
            sent == it.index() <= it.seq().len() == total,
            it.seq().len() == packet_count(octets_for(bits_of(syn).len())),
    {
        match offer(&c, packet) {
            Handoff::Delivered => {
                sent += 1;
            },
            Handoff::ConsumerGone => {
                return Err(sent);
            },
        }
    }
    Ok(sent)
}

} // verus!
