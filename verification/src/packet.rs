use crate::error::Error;
use vstd::prelude::*;

verus! {

/// The number of bytes in every packet exchanged with the device.
pub const PACKET_SIZE: usize = 64;

/// The byte written to the transfer buffer for a source byte: the byte itself
/// when the polarity is `true`, its bitwise complement when it is `false`.
pub open spec fn on_wire(byte: u8, polarity: bool) -> u8 {
    if polarity {
        byte
    } else {
        byte ^ 0xFF
    }
}

/// The byte that fills a packet when there is nothing to send.
pub open spec fn idle_byte(polarity: bool) -> u8 {
    if polarity {
        0xFF
    } else {
        0x00
    }
}

/// A whole packet of idle bytes.
pub open spec fn idle_packet(polarity: bool) -> Seq<u8> {
    Seq::new(PACKET_SIZE as nat, |i: int| idle_byte(polarity))
}

/// The buffer `dest` after `source` has been assembled into it: the leading
/// bytes are those of `source` as they go on the wire, the rest of `dest` is
/// untouched.
pub open spec fn assembled(dest: Seq<u8>, source: Seq<u8>, polarity: bool) -> Seq<u8> {
    Seq::new(
        dest.len(),
        |i: int|
            if i < source.len() {
                on_wire(source[i], polarity)
            } else {
                dest[i]
            },
    )
}

/// The number of packets that `n` bytes are cut into.
pub open spec fn packet_count(n: nat) -> nat {
    ((n + 63) / 64) as nat
}

/// Packet `k` of a byte stream: bytes `64k` to `64k + 63`, with zero bytes
/// where the stream has ended.
pub open spec fn packet_at(bytes: Seq<u8>, k: int) -> Seq<u8> {
    Seq::new(
        PACKET_SIZE as nat,
        |i: int|
            if 64 * k + i < bytes.len() {
                bytes[64 * k + i]
            } else {
                0u8
            },
    )
}

/// Under the inverted polarity no byte goes on the wire unchanged, and
/// complementing a byte twice gives the byte back.
pub proof fn lemma_complement_twice(byte: u8)
    ensures
        on_wire(byte, false) != byte,
        on_wire(on_wire(byte, false), false) == byte,
{
    assert(byte ^ 0xFF != byte) by (bit_vector);
    assert((byte ^ 0xFF) ^ 0xFF == byte) by (bit_vector);
}

/// Assembling under the inverted polarity what was assembled under it before
/// restores the source bytes at the head of the buffer.
pub proof fn lemma_assemble_twice(first: Seq<u8>, second: Seq<u8>, source: Seq<u8>)
    requires
        source.len() <= first.len(),
        source.len() <= second.len(),
    ensures
        assembled(second, assembled(first, source, false).take(source.len() as int), false).take(
            source.len() as int,
        ) == source,
{
    let once = assembled(first, source, false).take(source.len() as int);
    let twice = assembled(second, once, false).take(source.len() as int);
    assert forall|i: int| 0 <= i < source.len() implies twice[i] == source[i] by {
        lemma_complement_twice(source[i]);
    }
}

/// The idle byte is the all-ones byte as it goes on the wire: data and idle
/// fill agree on the level that means "off" under either polarity.
pub proof fn lemma_idle_level(polarity: bool)
    ensures
        idle_byte(polarity) == on_wire(0xFF, polarity),
{
    assert(0xFFu8 ^ 0xFF == 0x00) by (bit_vector);
}

/// Copies `x` to the head of the packet buffer `y`, complementing each byte
/// when `norm` is `false`. Bytes of `y` beyond the length of `x` keep what the
/// caller had written there. More bytes than a packet holds are refused and
/// leave `y` as it was.
#[allow(non_snake_case)]
pub fn assemblePacket(y: &mut [u8; PACKET_SIZE], x: &[u8], norm: bool) -> (r: Result<(), Error>)
    ensures
        x@.len() <= PACKET_SIZE ==> r is Ok && final(y)@ == assembled(old(y)@, x@, norm),
        x@.len() > PACKET_SIZE ==> r is Err && r->Err_0 == Error::PacketOverflow && final(y)@
            == old(y)@,
{
    if x.len() > PACKET_SIZE {
        return Err(Error::PacketOverflow);
    }
    let mut i: usize = 0;
    while i < x.len()
        invariant
            i <= x@.len() <= PACKET_SIZE,
            y@ == assembled(old(y)@, x@.take(i as int), norm),
        decreases x.len() - i,
    {
        if norm {
            y[i] = x[i];
        } else {
            y[i] = x[i] ^ 255u8;
        }
        i += 1;
    }
    Ok(())
}

/// Fills the packet buffer `y` with the idle byte of `polarity`: all ones for
/// `true`, all zeros for `false`.
pub fn idle_fill(y: &mut [u8; PACKET_SIZE], polarity: bool)
    ensures
        final(y)@ == idle_packet(polarity),
        forall|i: int| 0 <= i < PACKET_SIZE ==> final(y)@[i] == (if polarity { 0xFFu8 } else { 0x00u8 }),
{
    let fill: u8 = if polarity { 0xFF } else { 0x00 };
    let mut i: usize = 0;
    while i < PACKET_SIZE
        invariant
            i <= PACKET_SIZE,
            fill == idle_byte(polarity),
            forall|k: int| 0 <= k < i ==> y@[k] == fill,
        decreases PACKET_SIZE - i,
    {
        y[i] = fill;
        i += 1;
    }
}

/// Cuts `bytes` into packets of 64 bytes, in order, the last one completed
/// with zero bytes. An empty stream gives no packet.
pub fn packetize(bytes: &[u8]) -> (r: Vec<Vec<u8>>)
    ensures
        r@.len() == packet_count(bytes@.len()),
        forall|k: int| 0 <= k < r@.len() ==> (#[trigger] r@[k])@ == packet_at(bytes@, k),
{
    let total = bytes.len();
    let mut out: Vec<Vec<u8>> = Vec::new();
    let mut start: usize = 0;
    while start < total
        invariant
            total == bytes@.len(),
            start <= total,
            start == 64 * out@.len() || (start == total && out@.len() == packet_count(total as nat)),
            forall|k: int| 0 <= k < out@.len() ==> (#[trigger] out@[k])@ == packet_at(bytes@, k),
        decreases total - start,
    {
        let ghost k = out@.len() as int;
        let mut packet: Vec<u8> = Vec::new();
        let mut i: usize = 0;
        while i < PACKET_SIZE
            invariant
                total == bytes@.len(),
                start < total,
                start == 64 * k,
                i <= PACKET_SIZE,
                packet@ == packet_at(bytes@, k).take(i as int),
            decreases PACKET_SIZE - i,
        {
            if i < total - start {
                packet.push(bytes[start + i]);
            } else {
                packet.push(0u8);
            }
            i += 1;
        }
        out.push(packet);
        if total - start > PACKET_SIZE {
            start += PACKET_SIZE;
        } else {
            start = total;
        }
    }
    out
}

} // verus!
